use kerria::catalog::Catalog;
use kerria::cosmetics::{Brand, BrandSequence, NewBrand, NewProduct, Price};
use kerria::models::{CatalogError, CommonStatus, ErrorKind, Paging};

fn names(list: &[&str]) -> Vec<NewBrand> {
    list.iter().map(|n| NewBrand { name: n.to_string() }).collect()
}

fn listing(c: &Catalog) -> Vec<(u64, String, i32)> {
    c.get_all_brands().into_iter().map(|b| (b.id, b.name, b.sequence)).collect()
}

fn product(name: &str, brand: &str) -> NewProduct {
    NewProduct {
        id: None,
        name: name.to_string(),
        alias: "alias".to_string(),
        title: format!("{} title", name),
        subtitle: "sub".to_string(),
        brand_name: brand.to_string(),
        spec: "50ml".to_string(),
        kind: 1,
        sell_price: Price { mantissa: 1999, scale: 2 },
        import_price: Price { mantissa: 1000, scale: 2 },
        sequence: 0,
        jd_id: "jd".to_string(),
        jd_url: "http://jd".to_string(),
        status: 0,
        comment: String::new(),
        img_url: "img".to_string(),
        brand_id: 0,
    }
}

fn all_pages() -> Paging {
    Paging { offset: None, limit: None }
}

#[test]
fn batch_gets_consecutive_sequences() {
    let mut c = Catalog::new();
    assert_eq!(c.create_brands(&names(&["A", "B"]), "op"), Ok(()));
    assert_eq!(c.create_brands(&names(&["C"]), "op"), Ok(()));
    assert_eq!(
        listing(&c),
        vec![(1, "A".to_string(), 1), (2, "B".to_string(), 2), (3, "C".to_string(), 3)]
    );
}

#[test]
fn colliding_batch_is_rejected_whole() {
    let mut c = Catalog::new();
    c.create_brands(&names(&["Acme", "Zeta"]), "op").unwrap();
    let before = listing(&c);
    let err = c.create_brands(&names(&["Acme", "Acme"]), "op").err().unwrap();
    assert_eq!(err, CatalogError::NameTaken);
    assert_eq!(err.kind(), ErrorKind::Conflict);
    assert_eq!(listing(&c), before);
    assert_eq!(c.create_brands(&names(&["New", "Acme"]), "op"), Err(CatalogError::NameTaken));
    assert_eq!(listing(&c), before);
}

#[test]
fn repeated_name_in_batch_is_rejected() {
    let mut c = Catalog::new();
    assert_eq!(c.create_brands(&names(&["X", "Y", "X"]), "op"), Err(CatalogError::NameTaken));
    assert!(listing(&c).is_empty());
}

#[test]
fn empty_batch_and_empty_name_are_rejected() {
    let mut c = Catalog::new();
    assert_eq!(c.create_brands(&names(&[]), "op"), Err(CatalogError::EmptyBatch));
    assert_eq!(c.create_brands(&names(&["A", ""]), "op"), Err(CatalogError::EmptyName));
    assert_eq!(CatalogError::EmptyName.kind(), ErrorKind::Validation);
    assert!(listing(&c).is_empty());
}

#[test]
fn single_reorder_is_a_no_op() {
    let mut c = Catalog::new();
    c.create_brands(&names(&["A", "B"]), "op").unwrap();
    let before = listing(&c);
    assert_eq!(c.update_brands_sequence(&vec![BrandSequence { id: 1, sequence: 5 }], "op"), Ok(()));
    assert_eq!(listing(&c), before);
    assert_eq!(c.update_brands_sequence(&vec![BrandSequence { id: 99, sequence: 5 }], "op"), Ok(()));
    assert_eq!(listing(&c), before);
}

#[test]
fn reorder_swaps_display_order() {
    let mut c = Catalog::new();
    c.create_brands(&names(&["A", "B", "C"]), "op").unwrap();
    let bss = vec![BrandSequence { id: 1, sequence: 3 }, BrandSequence { id: 3, sequence: 1 }];
    assert_eq!(c.update_brands_sequence(&bss, "op2"), Ok(()));
    assert_eq!(
        listing(&c),
        vec![(3, "C".to_string(), 1), (2, "B".to_string(), 2), (1, "A".to_string(), 3)]
    );
}

#[test]
fn reorder_rejects_unknown_repeated_or_clashing() {
    let mut c = Catalog::new();
    c.create_brands(&names(&["A", "B", "C"]), "op").unwrap();
    c.delete_brand(3, "op").unwrap();
    let before = listing(&c);
    let unknown = vec![BrandSequence { id: 1, sequence: 7 }, BrandSequence { id: 9, sequence: 8 }];
    assert_eq!(c.update_brands_sequence(&unknown, "op"), Err(CatalogError::BrandIdsMismatch));
    let deleted = vec![BrandSequence { id: 1, sequence: 7 }, BrandSequence { id: 3, sequence: 8 }];
    assert_eq!(c.update_brands_sequence(&deleted, "op"), Err(CatalogError::BrandIdsMismatch));
    let repeated = vec![BrandSequence { id: 1, sequence: 7 }, BrandSequence { id: 1, sequence: 8 }];
    assert_eq!(c.update_brands_sequence(&repeated, "op"), Err(CatalogError::BrandIdsMismatch));
    let clash = vec![BrandSequence { id: 1, sequence: 4 }, BrandSequence { id: 2, sequence: 4 }];
    assert_eq!(c.update_brands_sequence(&clash, "op"), Err(CatalogError::DuplicateSequence));
    assert_eq!(listing(&c), before);
}

#[test]
fn deleted_brand_name_can_be_reused() {
    let mut c = Catalog::new();
    c.create_brands(&names(&["B1", "B2", "B3", "B4", "B5", "B6", "Seven"]), "op").unwrap();
    assert_eq!(c.delete_brand(7, "op"), Ok(()));
    assert_eq!(c.create_brands(&names(&["Seven"]), "op"), Ok(()));
    let l = listing(&c);
    assert_eq!(l.last(), Some(&(8, "Seven".to_string(), 7)));
    assert_eq!(c.get_brand_id(&"Seven".to_string()), Ok(8));
}

#[test]
fn delete_brand_needs_a_live_brand() {
    let mut c = Catalog::new();
    c.create_brands(&names(&["A"]), "op").unwrap();
    assert_eq!(c.delete_brand(0, "op"), Err(CatalogError::BrandNotFound));
    assert_eq!(c.delete_brand(2, "op"), Err(CatalogError::BrandNotFound));
    assert_eq!(c.delete_brand(1, "op"), Ok(()));
    assert_eq!(c.delete_brand(1, "op"), Err(CatalogError::BrandNotFound));
    assert!(listing(&c).is_empty());
    assert_eq!(c.get_brand_id(&"A".to_string()), Err(CatalogError::BrandNameNotFound));
}

#[test]
fn next_batch_follows_highest_live_sequence() {
    let mut c = Catalog::new();
    c.create_brands(&names(&["A", "B"]), "op").unwrap();
    c.update_brands_sequence(&vec![BrandSequence { id: 1, sequence: 40 }, BrandSequence { id: 2, sequence: 10 }], "op").unwrap();
    c.create_brands(&names(&["C"]), "op").unwrap();
    assert_eq!(listing(&c).last(), Some(&(3, "C".to_string(), 41)));
}

#[test]
fn replacing_hot_list_with_nothing_clears_it() {
    let mut c = Catalog::new();
    assert_eq!(c.add_hot_product(&vec![3, 1, 2], "op"), Ok(()));
    let ids: Vec<u64> = c.get_hot_products().iter().map(|h| h.product_id).collect();
    assert_eq!(ids, vec![3, 1, 2]);
    assert_eq!(c.add_hot_product(&vec![5], "op"), Ok(()));
    let ids: Vec<u64> = c.get_hot_products().iter().map(|h| h.product_id).collect();
    assert_eq!(ids, vec![5]);
    assert_eq!(c.add_hot_product(&vec![], "op"), Ok(()));
    assert!(c.get_hot_products().is_empty());
}

#[test]
fn product_fields_are_validated_in_order() {
    let mut c = Catalog::new();
    c.create_brands(&names(&["Acme"]), "op").unwrap();
    let mut p = product("", "Acme");
    p.title = String::new();
    assert_eq!(c.create_product(p, "op"), Err(CatalogError::EmptyName));
    let mut p = product("Cream", "Acme");
    p.title = String::new();
    assert_eq!(c.create_product(p, "op"), Err(CatalogError::EmptyTitle));
    let mut p = product("Cream", "Acme");
    p.sell_price = Price { mantissa: -1, scale: 2 };
    assert_eq!(c.create_product(p, "op"), Err(CatalogError::NegativePrice));
    let mut p = product("Cream", "Acme");
    p.sell_price = Price { mantissa: 0, scale: 2 };
    p.status = 2;
    assert_eq!(c.create_product(p, "op"), Err(CatalogError::InvalidStatus));
    assert_eq!(c.create_product(product("Cream", "Nobody"), "op"), Err(CatalogError::BrandNameNotFound));
    assert_eq!(CatalogError::BrandNameNotFound.kind(), ErrorKind::NotFound);
    assert!(c.get_product(1).is_none());
}

#[test]
fn product_is_filed_under_its_brand() {
    let mut c = Catalog::new();
    c.create_brands(&names(&["Acme", "Zeta"]), "op").unwrap();
    assert_eq!(c.create_product(product("Cream", "Zeta"), "op"), Ok(1));
    let item = c.get_product(1).unwrap();
    assert_eq!((item.id, item.brand_id, item.brand_name.as_str()), (1, 2, "Zeta"));
    assert_eq!((item.name.as_str(), item.title.as_str(), item.status), ("Cream", "Cream title", 0));
    assert_eq!(item.sell_price, Price { mantissa: 1999, scale: 2 });
    assert!(c.is_product_valid(1));
    assert!(!c.is_product_valid(2));
}

#[test]
fn update_needs_a_live_product() {
    let mut c = Catalog::new();
    c.create_brands(&names(&["Acme", "Zeta"]), "op").unwrap();
    assert_eq!(c.update_product(1, product("Cream", "Acme"), "op"), Err(CatalogError::ProductNotFound));
    c.create_product(product("Cream", "Acme"), "op").unwrap();
    assert_eq!(c.update_product(1, product("Lotion", "Zeta"), "op2"), Ok(()));
    let item = c.get_valid_product(1).unwrap();
    assert_eq!((item.name.as_str(), item.brand_name.as_str()), ("Lotion", "Zeta"));
    assert_eq!(c.update_product(1, product("Lotion", "Nobody"), "op"), Err(CatalogError::BrandNameNotFound));
    assert_eq!(c.delete_product(1, "op"), Ok(()));
    assert_eq!(c.delete_product(1, "op"), Err(CatalogError::ProductNotFound));
    assert_eq!(c.update_product(1, product("Cream", "Acme"), "op"), Err(CatalogError::ProductNotFound));
    assert!(c.get_valid_product(1).is_none());
    assert_eq!(c.get_product(1).unwrap().status, CommonStatus::Invalid.code());
}

#[test]
fn brand_detail_pages_default_to_twenty() {
    let mut c = Catalog::new();
    c.create_brands(&names(&["Acme", "Zeta"]), "op").unwrap();
    for i in 0..25 {
        c.create_product(product(&format!("p{}", i), "Acme"), "op").unwrap();
    }
    c.create_product(product("other", "Zeta"), "op").unwrap();
    c.delete_product(2, "op").unwrap();
    let page = c.get_brand_detail(1, all_pages());
    assert_eq!(page.len(), 20);
    assert_eq!(page[0].id, 1);
    assert_eq!(page[1].id, 3);
    let rest = c.get_brand_detail(1, Paging { offset: Some(20), limit: Some(500) });
    assert_eq!(rest.iter().map(|b| b.id).collect::<Vec<u64>>(), vec![22, 23, 24, 25]);
    assert_eq!(c.get_brand_detail(2, all_pages()).len(), 1);
}

#[test]
fn listings_are_paged() {
    let mut c = Catalog::new();
    let many: Vec<String> = (0..105).map(|i| format!("b{}", i)).collect();
    let refs: Vec<&str> = many.iter().map(|s| s.as_str()).collect();
    c.create_brands(&names(&refs), "op").unwrap();
    assert_eq!(c.get_brands(all_pages()).len(), 100);
    let tail = c.get_brands(Paging { offset: Some(103), limit: Some(10) });
    assert_eq!(tail.iter().map(|b| b.id).collect::<Vec<u64>>(), vec![104, 105]);
    assert!(c.get_brands(Paging { offset: Some(200), limit: None }).is_empty());
    for i in 0..3 {
        c.create_product(product(&format!("p{}", i), "b0"), "op").unwrap();
    }
    let products = c.get_all_products(Paging { offset: Some(1), limit: Some(1) });
    assert_eq!(products.len(), 1);
    assert_eq!((products[0].id, products[0].brand_name.as_str()), (2, "b0"));
}

#[test]
fn single_brand_needs_free_name_and_sequence() {
    let brand = |name: &str, sequence: i32| Brand { id: 0, name: name.to_string(), sequence, is_hot: false };
    let mut c = Catalog::new();
    assert_eq!(c.create_brand(brand("Acme", 10), "op"), Ok(1));
    assert_eq!(c.create_brand(brand("Acme", 11), "op"), Err(CatalogError::NameTaken));
    assert_eq!(c.create_brand(brand("Zeta", 10), "op"), Err(CatalogError::DuplicateSequence));
    assert_eq!(c.create_brand(brand("", 12), "op"), Err(CatalogError::EmptyName));
    assert_eq!(c.create_brand(brand("Zeta", -3), "op"), Ok(2));
    assert_eq!(listing(&c), vec![(2, "Zeta".to_string(), -3), (1, "Acme".to_string(), 10)]);
    assert_eq!(c.get_max_brand_sequence(), 10);
}

#[test]
fn checks_report_names_ids_and_highest_sequence() {
    let mut c = Catalog::new();
    assert_eq!(c.get_max_brand_sequence(), 0);
    c.create_brands(&names(&["A", "B"]), "op").unwrap();
    assert_eq!(c.is_brand_names_valid(&names(&["C", "D"])), Ok(()));
    assert_eq!(c.is_brand_names_valid(&names(&["C", "B"])), Err(CatalogError::NameTaken));
    assert_eq!(c.get_max_brand_sequence(), 2);
    let ok = vec![BrandSequence { id: 2, sequence: 9 }, BrandSequence { id: 1, sequence: 8 }];
    assert_eq!(c.is_brand_ids_valid(&ok), Ok(()));
    c.delete_brand(2, "op").unwrap();
    assert_eq!(c.is_brand_ids_valid(&ok), Err(CatalogError::BrandIdsMismatch));
    assert_eq!(c.get_max_brand_sequence(), 1);
}
