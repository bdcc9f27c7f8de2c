use rcc_conformance::idx::{block_name, BasicBlockId, Idx, IndexVec};

#[test]
fn push_returns_the_index_that_reads_the_value_back() {
    let mut v: IndexVec<BasicBlockId, &str> = IndexVec::new();
    assert!(v.is_empty());
    let a = v.push("a");
    let b = v.push("b");
    assert_eq!(a, BasicBlockId(0));
    assert_eq!(b, BasicBlockId(1));
    assert_eq!(v.len(), 2);
    assert_eq!(v.get(b), Some(&"b"));
    assert_eq!(v.get(BasicBlockId(2)), None);
    *v.get_mut(a).unwrap() = "z";
    assert_eq!(v.raw(), ["z", "b"]);
    let pairs: Vec<(BasicBlockId, &&str)> = v.iter_enumerated();
    assert_eq!(pairs, [(BasicBlockId(0), &"z"), (BasicBlockId(1), &"b")]);
    for x in v.iter_mut() {
        *x = "q";
    }
    assert_eq!(v.iter(), ["q", "q"]);
    let w: IndexVec<BasicBlockId, u8> = IndexVec::with_capacity(8);
    assert_eq!(w.len(), 0);
    assert_eq!(BasicBlockId::new(7).index(), 7);
}

#[test]
fn block_names() {
    assert_eq!(block_name(BasicBlockId(0)), "entry");
    assert_eq!(block_name(BasicBlockId(12)), "bb12");
}
