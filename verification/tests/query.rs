use oblivious_fhe::db::{execute_query1_plaintext, generate_sample_database, DatabaseRecord};

#[test]
fn test_plaintext_query() {
    let records = vec![
        DatabaseRecord { id: 1, salary: 50, work_hours: 110, bonus: 700 },  // 50*110=5500 ok, 50+700=750 ok
        DatabaseRecord { id: 2, salary: 100, work_hours: 50, bonus: 750 },  // 100*50=5000 ok, 100+750=850 not ok
        DatabaseRecord { id: 3, salary: 60, work_hours: 100, bonus: 700 },  // 60*100=6000 ok, 60+700=760 ok
    ];

    let result = execute_query1_plaintext(&records);

    println!("Matching IDs: {:?}", result);
    assert!(result.contains(&1));
    assert!(!result.contains(&2));
    assert!(result.contains(&3));
}

#[test]
fn test_query_keeps_input_order() {
    let records = vec![
        DatabaseRecord { id: 3, salary: 60, work_hours: 100, bonus: 700 },
        DatabaseRecord { id: 2, salary: 100, work_hours: 50, bonus: 750 },
        DatabaseRecord { id: 1, salary: 50, work_hours: 110, bonus: 700 },
    ];
    let result = execute_query1_plaintext(&records);
    assert_eq!(result, vec![3, 1]);
}

#[test]
fn test_query_range_boundaries() {
    // Product exactly at the bounds matches; one past either bound does not.
    let records = vec![
        DatabaseRecord { id: 10, salary: 50, work_hours: 100, bonus: 700 },  // product 5000, sum 750
        DatabaseRecord { id: 11, salary: 49, work_hours: 102, bonus: 700 },  // product 4998: below
        DatabaseRecord { id: 12, salary: 60, work_hours: 100, bonus: 740 },  // product 6000, sum 800
        DatabaseRecord { id: 13, salary: 60, work_hours: 100, bonus: 741 },  // sum 801: above
    ];
    let result = execute_query1_plaintext(&records);
    assert_eq!(result, vec![10, 12]);
}

#[test]
fn test_generate_sample_database_formulas() {
    let db = generate_sample_database(5);
    assert_eq!(db.len(), 5);
    assert_eq!(db[0].id, 0);
    assert_eq!(db[0].salary, 20);
    assert_eq!(db[0].work_hours, 40);
    assert_eq!(db[0].bonus, 600);
    assert_eq!(db[1].salary, 27);
    assert_eq!(db[1].work_hours, 51);
    assert_eq!(db[1].bonus, 613);
    assert_eq!(db[4].salary, 48);
    assert_eq!(db[4].work_hours, 44);
    assert_eq!(db[4].bonus, 652);
}
