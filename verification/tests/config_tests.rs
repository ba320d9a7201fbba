use azor::config::{default_chunk_size, default_port};

#[test]
fn default_port_is_7600() {
    assert_eq!(default_port(), 7600);
}

#[test]
fn default_chunk_size_is_448() {
    assert_eq!(default_chunk_size(), 448);
}
