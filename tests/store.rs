use file_transfer::allocator::{CreateResult, MAX_ATTEMPTS};
use file_transfer::response::ErrorKind;
use file_transfer::store::MemStore;

#[test]
fn read_of_absent_name_is_not_found() {
    let s = MemStore::new();
    assert_eq!(s.read("nothing.txt"), Err(ErrorKind::NotFound));
}

#[test]
fn write_replaces_and_read_returns_bytes() {
    let mut s = MemStore::new();
    s.write("a.txt", &b"one".to_vec());
    s.write("b.txt", &b"two".to_vec());
    s.write("a.txt", &vec![0u8, 255, 10]);
    assert_eq!(s.read("a.txt"), Ok(vec![0u8, 255, 10]));
    assert_eq!(s.read("b.txt"), Ok(b"two".to_vec()));
}

#[test]
fn delete_twice_fails_the_second_time() {
    let mut s = MemStore::new();
    s.write("a.txt", &b"x".to_vec());
    assert_eq!(s.delete("a.txt"), Ok(()));
    assert_eq!(s.delete("a.txt"), Err(ErrorKind::NotFound));
    assert_eq!(s.read("a.txt"), Err(ErrorKind::NotFound));
}

#[test]
fn exclusive_create_keeps_existing_blob() {
    let mut s = MemStore::new();
    assert_eq!(s.create_exclusive("a.txt", &b"first".to_vec()), CreateResult::Created);
    assert_eq!(s.create_exclusive("a.txt", &b"second".to_vec()), CreateResult::AlreadyExists);
    assert_eq!(s.read("a.txt"), Ok(b"first".to_vec()));
}

#[test]
fn create_new_with_takes_first_free_candidate() {
    let mut s = MemStore::new();
    s.write("data003.txt", &b"old".to_vec());
    let mut draws = vec![3u32, 3, 12];
    draws.resize(MAX_ATTEMPTS, 500);
    let r = s.create_new_with("data", &b"new".to_vec(), draws);
    assert_eq!(r, Ok("data012.txt".to_string()));
    assert_eq!(s.read("data012.txt"), Ok(b"new".to_vec()));
    assert_eq!(s.read("data003.txt"), Ok(b"old".to_vec()));
}

#[test]
fn create_new_with_saturated_candidates_creates_nothing() {
    let mut s = MemStore::new();
    s.write("data005.txt", &b"old".to_vec());
    s.write("data006.txt", &b"old".to_vec());
    let draws: Vec<u32> = (0..MAX_ATTEMPTS).map(|i| 5 + (i % 2) as u32).collect();
    let r = s.create_new_with("data", &b"new".to_vec(), draws);
    assert_eq!(r, Err(ErrorKind::ExhaustedAttempts));
    assert_eq!(s.read("data005.txt"), Ok(b"old".to_vec()));
    assert_eq!(s.read("data006.txt"), Ok(b"old".to_vec()));
    for n in 0..1000u32 {
        if n != 5 && n != 6 {
            assert_eq!(s.read(&format!("data{:03}.txt", n)), Err(ErrorKind::NotFound));
        }
    }
}

#[test]
fn create_new_generates_prefix_digits_txt() {
    let mut s = MemStore::new();
    let name = s.create_new("data", &b"payload".to_vec()).unwrap();
    assert_eq!(name.len(), "data".len() + 3 + ".txt".len());
    assert!(name.starts_with("data"));
    assert!(name.ends_with(".txt"));
    assert!(name[4..7].chars().all(|c| c.is_ascii_digit()));
    assert_eq!(s.read(&name), Ok(b"payload".to_vec()));
}

#[test]
fn create_new_succeeds_when_no_generated_name_is_taken() {
    let mut s = MemStore::new();
    s.write("data.txt", &b"a".to_vec());
    s.write("data1.txt", &b"b".to_vec());
    s.write("other007.txt", &b"c".to_vec());
    let name = s.create_new("data", &b"payload".to_vec()).unwrap();
    assert!(name != "data.txt" && name != "data1.txt");
    assert_eq!(s.read(&name), Ok(b"payload".to_vec()));
    assert_eq!(s.read("data.txt"), Ok(b"a".to_vec()));
}
