use omi_store::ids::document_id_from_seed;
use omi_store::records::{memory_path, Memory};
use omi_store::scoring::MemoryCategory;

#[test]
fn test_document_id_from_seed() {
    let id = document_id_from_seed("test content");
    assert_eq!(id.len(), 20);
    assert_eq!(id, document_id_from_seed("test content"));
    assert_ne!(id, document_id_from_seed("different content"));
}

#[test]
fn document_id_is_first_ten_digest_bytes_in_hex() {
    assert_eq!(document_id_from_seed("test content"), "6ae8a75555209fd6c441");
    assert_eq!(document_id_from_seed("Buy milk"), "df3db8a9ea05f22ce023");
}

#[test]
fn equal_content_equal_id_different_content_different_id() {
    assert_eq!(document_id_from_seed("a"), document_id_from_seed("a"));
    assert_ne!(document_id_from_seed("a"), document_id_from_seed("b"));
    assert_eq!(document_id_from_seed("a"), "ca978112ca1bbdcafac2");
    assert_eq!(document_id_from_seed("b"), "3e23e8160039594a3389");
}

#[test]
fn memory_path_is_content_addressed() {
    let first = Memory { content: "Buy milk".to_string(), category: MemoryCategory::Interesting };
    let second = Memory { content: "Buy milk".to_string(), category: MemoryCategory::System };
    let a = memory_path("user-1", &first.content);
    let b = memory_path("user-1", &second.content);
    assert_eq!(a, "users/user-1/memories/df3db8a9ea05f22ce023");
    assert_eq!(a, b);
    assert_ne!(a, memory_path("user-2", "Buy milk"));
}
