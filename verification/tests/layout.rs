use substrate::layout::{CellDb, CellId, RawCell};

fn cell(id: u64, name: &str) -> RawCell {
    RawCell { id: CellId(id), name: name.to_string() }
}

#[test]
fn cell_names_are_made_unique() {
    let mut db = CellDb::new();
    let a = cell(1, "inv");
    let b = cell(2, "inv");
    let c = cell(3, "inv_1");
    let d = cell(4, "inv");
    assert_eq!(db.get_name(&a), None);
    assert_eq!(db.assign_name(&a), "inv");
    assert_eq!(db.assign_name(&b), "inv_1");
    // `inv_1` is taken by `b`, so a cell that asks for it gets the next alternative.
    assert_eq!(db.assign_name(&c), "inv_1_1");
    assert_eq!(db.assign_name(&d), "inv_2");
    assert_eq!(db.get_name(&a), Some("inv".to_string()));
    assert_eq!(db.get_name(&d), Some("inv_2".to_string()));
    assert_eq!(db.get_name(&cell(9, "x")), None);
}

#[test]
fn alternatives_count_past_nine() {
    let mut db = CellDb::new();
    let mut last = String::new();
    for i in 0..12 {
        last = db.assign_name(&cell(i, "buf"));
    }
    assert_eq!(last, "buf_11");
}
