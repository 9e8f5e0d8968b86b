use static_server::query::parse_url_query_string;

#[test]
fn picks_keys_with_the_prefix() {
    let pairs = parse_url_query_string("loglvl_base=info&loglvl_wgpu_core=error&other=1", "loglvl_");
    assert_eq!(pairs.len(), 2);
    assert_eq!(pairs[0].0, "loglvl_base");
    assert_eq!(pairs[0].1, "info");
    assert_eq!(pairs[1].0, "loglvl_wgpu_core");
    assert_eq!(pairs[1].1, "error");
}

#[test]
fn empty_query_yields_nothing() {
    let pairs = parse_url_query_string("", "loglvl_");
    assert!(pairs.is_empty());
}

#[test]
fn segment_without_equals_is_skipped() {
    let pairs = parse_url_query_string("loglvl_base&loglvl_x=trace", "loglvl_");
    assert_eq!(pairs.len(), 1);
    assert_eq!(pairs[0].0, "loglvl_x");
    assert_eq!(pairs[0].1, "trace");
}

#[test]
fn value_ends_at_the_second_equals() {
    let pairs = parse_url_query_string("loglvl_a=b=c", "loglvl_");
    assert_eq!(pairs.len(), 1);
    assert_eq!(pairs[0].0, "loglvl_a");
    assert_eq!(pairs[0].1, "b");
}

#[test]
fn empty_prefix_takes_every_pair() {
    let pairs = parse_url_query_string("a=1&b=2", "");
    assert_eq!(pairs.len(), 2);
    assert_eq!(pairs[0].0, "a");
    assert_eq!(pairs[0].1, "1");
    assert_eq!(pairs[1].0, "b");
    assert_eq!(pairs[1].1, "2");
}

#[test]
fn empty_value_is_kept() {
    let pairs = parse_url_query_string("loglvl_a=", "loglvl_");
    assert_eq!(pairs.len(), 1);
    assert_eq!(pairs[0].0, "loglvl_a");
    assert_eq!(pairs[0].1, "");
}

#[test]
fn prefix_must_open_the_key() {
    let pairs = parse_url_query_string("xloglvl_a=1", "loglvl_");
    assert!(pairs.is_empty());
}

#[test]
fn pairs_come_back_in_query_order() {
    let pairs = parse_url_query_string("b=2&a=1", "");
    assert_eq!(pairs[0].0, "b");
    assert_eq!(pairs[1].0, "a");
}
