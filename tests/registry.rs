use student_contract::{Status, StudentContract, StudentError};

fn create_ok(
    reg: &mut StudentContract,
    name: &str,
    birth_date: &str,
    cr: Option<i32>,
    status: Option<Status>,
) -> u32 {
    reg.create_student(name.to_string(), birth_date.to_string(), cr, status)
        .expect("student creation failed")
}

#[test]
fn create_student_works() {
    let mut contract = StudentContract::new();

    let all_students = contract.get_all_students();
    assert!(all_students.is_empty());

    let student_id = create_ok(&mut contract, "Test", "01/01/2000", Some(90), Some(Status::Active));

    let student = contract.get_student(student_id);
    assert!(student.is_some());

    let student = student.unwrap();

    assert_eq!(student.name, "Test");
    assert_eq!(student.birth_date, "01/01/2000");
    assert_eq!(student.cr, Some(90));
    assert_eq!(student.status, Some(Status::Active));
}

#[test]
fn update_student_works() {
    let mut contract = StudentContract::new();

    let student_id =
        create_ok(&mut contract, "Test", "02/02/2000", Some(85), Some(Status::Inactive));

    let updated = contract.update_student(
        student_id,
        Some("Test Update".to_string()),
        Some("02/02/2000".to_string()),
        Some(95),
        Some(Some(Status::Active)),
    );

    assert_eq!(updated, Ok(true));

    let student = contract.get_student(student_id).unwrap();

    assert_eq!(student.name, "Test Update");
    assert_eq!(student.birth_date, "02/02/2000");
    assert_eq!(student.cr, Some(95));
    assert_eq!(student.status, Some(Status::Active));
}

#[test]
fn delete_student_works() {
    let mut contract = StudentContract::new();

    let student_id =
        create_ok(&mut contract, "Test Delete", "03/03/2000", None, Some(Status::Graduated));

    let all_students = contract.get_all_students();
    assert_eq!(all_students.len(), 1);

    let deleted = contract.delete_student(student_id);
    assert!(deleted);

    let student = contract.get_student(student_id);
    assert!(student.is_none());
}

#[test]
fn default_works() {
    let contract = StudentContract::new();
    assert!(contract.get_all_students().is_empty());
}

#[test]
fn crud_works() {
    // The registry without field checks stores dates that the checks would refuse.
    let mut contract = StudentContract::with_validation(false);
    assert!(contract.get_all_students().is_empty());

    let id = create_ok(&mut contract, "Test", "99/99/9999", Some(8), Some(Status::Active));
    assert_eq!(id, 1);

    let student = contract.get_student(1).unwrap();
    assert_eq!(student.name, "Test");
    assert_eq!(student.birth_date, "99/99/9999");
    assert_eq!(student.cr, Some(8));
    assert_eq!(student.status, Some(Status::Active));

    let updated = contract.update_student(
        1,
        Some("Test update".to_string()),
        Some("00/00/0000".to_string()),
        Some(10),
        Some(Some(Status::Inactive)),
    );
    assert_eq!(updated, Ok(true));

    let student = contract.get_student(1).unwrap();
    assert_eq!(student.name, "Test update");
    assert_eq!(student.birth_date, "00/00/0000");
    assert_eq!(student.cr, Some(10));
    assert_eq!(student.status, Some(Status::Inactive));

    assert!(contract.delete_student(1));
    assert!(contract.get_all_students().is_empty());
}

#[test]
fn ids_strictly_increase() {
    let mut reg = StudentContract::new();
    let a = create_ok(&mut reg, "A", "01/01/2000", None, None);
    let b = create_ok(&mut reg, "B", "01/01/2000", None, None);
    assert!(reg.delete_student(b));
    let c = create_ok(&mut reg, "C", "01/01/2000", None, None);
    assert_eq!((a, b, c), (1, 2, 3));
}

#[test]
fn failed_create_does_not_consume_an_id() {
    let mut reg = StudentContract::new();
    assert_eq!(
        reg.create_student(String::new(), "01/01/2000".to_string(), None, None),
        Err(StudentError::EmptyName)
    );
    assert_eq!(create_ok(&mut reg, "A", "01/01/2000", None, None), 1);
}

#[test]
fn get_after_create_returns_input_fields() {
    let mut reg = StudentContract::new();
    let id = create_ok(&mut reg, "Maria", "15/06/1990", Some(77), Some(Status::Suspended));
    let s = reg.get_student(id).unwrap();
    assert_eq!(s.id, id);
    assert_eq!(s.name, "Maria");
    assert_eq!(s.birth_date, "15/06/1990");
    assert_eq!(s.cr, Some(77));
    assert_eq!(s.status, Some(Status::Suspended));
}

#[test]
fn empty_update_is_no_op() {
    let mut reg = StudentContract::new();
    let id = create_ok(&mut reg, "Ana", "10/10/2010", Some(50), Some(Status::Active));
    assert_eq!(reg.update_student(id, None, None, None, None), Ok(true));
    let s = reg.get_student(id).unwrap();
    assert_eq!(s.name, "Ana");
    assert_eq!(s.birth_date, "10/10/2010");
    assert_eq!(s.cr, Some(50));
    assert_eq!(s.status, Some(Status::Active));
}

#[test]
fn update_missing_id_returns_false() {
    let mut reg = StudentContract::new();
    let id = create_ok(&mut reg, "Ana", "10/10/2010", None, None);
    assert_eq!(reg.update_student(7, Some("X".to_string()), None, Some(1), None), Ok(false));
    assert_eq!(reg.get_student(id).unwrap().name, "Ana");
    assert_eq!(create_ok(&mut reg, "Bia", "10/10/2010", None, None), 2);
}

#[test]
fn update_status_can_be_cleared() {
    let mut reg = StudentContract::new();
    let id = create_ok(&mut reg, "Ana", "10/10/2010", Some(3), Some(Status::Active));
    assert_eq!(reg.update_student(id, None, None, None, Some(None)), Ok(true));
    let s = reg.get_student(id).unwrap();
    assert_eq!(s.status, None);
    assert_eq!(s.cr, Some(3));
}

#[test]
fn invalid_update_changes_nothing() {
    let mut reg = StudentContract::new();
    let id = create_ok(&mut reg, "Ana", "10/10/2010", Some(3), Some(Status::Active));
    let r = reg.update_student(
        id,
        Some("Bia".to_string()),
        Some("10/10/2010".to_string()),
        Some(101),
        Some(None),
    );
    assert_eq!(r, Err(StudentError::CrOutOfRange));
    let s = reg.get_student(id).unwrap();
    assert_eq!(s.name, "Ana");
    assert_eq!(s.status, Some(Status::Active));
    assert_eq!(s.cr, Some(3));
}

#[test]
fn delete_then_get_and_delete_again() {
    let mut reg = StudentContract::new();
    let id = create_ok(&mut reg, "Ana", "10/10/2010", None, None);
    assert!(reg.delete_student(id));
    assert!(reg.get_student(id).is_none());
    assert!(!reg.delete_student(id));
}

#[test]
fn get_all_skips_deleted_ids() {
    let mut reg = StudentContract::new();
    for name in ["A", "B", "C"] {
        create_ok(&mut reg, name, "01/01/2000", None, None);
    }
    assert!(reg.delete_student(2));
    let ids: Vec<u32> = reg.get_all_students().iter().map(|s| s.id).collect();
    assert_eq!(ids, vec![1, 3]);
}

fn assert_rejected(name: &str, birth_date: &str, cr: Option<i32>, expected: StudentError) {
    let mut reg = StudentContract::new();
    let r = reg.create_student(name.to_string(), birth_date.to_string(), cr, None);
    assert_eq!(r, Err(expected));
    assert!(reg.get_all_students().is_empty());
    assert_eq!(create_ok(&mut reg, "Ok", "01/01/2000", None, None), 1);
}

#[test]
fn rejects_empty_name() {
    assert_rejected("", "01/01/2000", None, StudentError::EmptyName);
    assert_rejected("   \t", "01/01/2000", None, StudentError::EmptyName);
}

#[test]
fn rejects_name_of_101_characters() {
    assert_rejected(&"a".repeat(101), "01/01/2000", None, StudentError::NameTooLong);
    let mut reg = StudentContract::new();
    assert_eq!(create_ok(&mut reg, &"a".repeat(100), "01/01/2000", None, None), 1);
}

#[test]
fn rejects_invalid_month() {
    assert_rejected("A", "31/13/2000", None, StudentError::MonthOutOfRange);
}

#[test]
fn rejects_year_below_1900() {
    assert_rejected("A", "00/01/1899", None, StudentError::DayOutOfRange);
    assert_rejected("A", "01/01/1899", None, StudentError::YearOutOfRange);
    assert_rejected("A", "01/01/2101", None, StudentError::YearOutOfRange);
}

#[test]
fn rejects_malformed_birth_dates() {
    assert_rejected("A", "2000-01-01", None, StudentError::BirthDateFormat);
    assert_rejected("A", "1/1/2000", None, StudentError::BirthDateFormat);
    assert_rejected("A", "01/01/20000", None, StudentError::BirthDateFormat);
    assert_rejected("A", "0101/20000", None, StudentError::BirthDateFormat);
    assert_rejected("A", "01//012000", None, StudentError::BirthDateFormat);
    assert_rejected("A", "32/01/2000", None, StudentError::DayOutOfRange);
    assert_rejected("A", "1/1/002000", None, StudentError::BirthDateFormat);
    let mut reg = StudentContract::new();
    let id = create_ok(&mut reg, "A", "01/01/2000", None, None);
    assert_eq!(
        reg.update_student(id, None, Some("1/1/002000".to_string()), None, None),
        Err(StudentError::BirthDateFormat)
    );
    assert_eq!(reg.get_student(id).unwrap().birth_date, "01/01/2000");
}

#[test]
fn rejects_cr_out_of_range() {
    assert_rejected("A", "01/01/2000", Some(101), StudentError::CrOutOfRange);
    assert_rejected("A", "01/01/2000", Some(-1), StudentError::CrOutOfRange);
}

#[test]
fn name_is_checked_before_date_and_cr() {
    assert_rejected("", "99/99/9999", Some(500), StudentError::EmptyName);
    assert_rejected("A", "99/99/9999", Some(500), StudentError::DayOutOfRange);
}

#[test]
fn accepts_boundary_values() {
    let mut reg = StudentContract::new();
    assert_eq!(create_ok(&mut reg, "A", "29/02/2000", Some(0), None), 1);
    assert_eq!(create_ok(&mut reg, "A", "29/02/2000", Some(100), None), 2);
    assert_eq!(create_ok(&mut reg, "Zé", "01/01/1900", None, None), 3);
    assert_eq!(create_ok(&mut reg, "Z", "31/12/2100", None, None), 4);
    assert_eq!(reg.get_student(1).unwrap().status, None);
}

#[test]
fn name_length_counts_characters() {
    let mut reg = StudentContract::new();
    assert_eq!(create_ok(&mut reg, &"é".repeat(100), "01/01/2000", None, None), 1);
}

#[test]
fn unvalidated_registry_accepts_anything() {
    let mut reg = StudentContract::with_validation(false);
    assert_eq!(create_ok(&mut reg, "", "", Some(-5), None), 1);
}

#[test]
fn error_kinds_and_reasons() {
    assert!(StudentError::NameTooLong.is_validation());
    assert!(!StudentError::IdOverflow.is_validation());
    assert!(!StudentError::CrOutOfRange.reason().is_empty());
}
