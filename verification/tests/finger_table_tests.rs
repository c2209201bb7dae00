use chord::addr::IpAddress;
use chord::finger_table::{FingerTable, FingerTableEntry};
use chord::node_info::NodeInfo;

fn entry(id: u64) -> FingerTableEntry {
    FingerTableEntry {
        node_info: NodeInfo { id, address: IpAddress::V4(10, 0, 0, 1), port: 4000 },
    }
}

#[test]
fn new_table_has_requested_number_of_empty_slots() {
    for n in [0usize, 1, 64, 128] {
        let table = FingerTable::new(n);
        assert_eq!(table.get_entries().len(), n);
        assert!(table.get_entries().iter().all(|slot| slot.is_none()));
        assert!(table.get_predecessors().is_empty());
        assert!(table.get_successors().is_empty());
    }
}

#[test]
fn default_table_is_empty() {
    let table = FingerTable::default();
    assert!(table.get_entries().is_empty());
    assert!(table.get_predecessors().is_empty());
    assert!(table.get_successors().is_empty());
}

#[test]
fn filling_a_slot_keeps_the_table_size() {
    let mut table = FingerTable::new(8);
    table.set_entry(3, Some(entry(42)));
    assert_eq!(table.get_entries().len(), 8);
    assert_eq!(table.get_entries()[3], Some(entry(42)));
    assert_eq!(table.get_entries()[2], None);
    table.set_entry(3, None);
    assert_eq!(table.get_entries().len(), 8);
    assert_eq!(table.get_entries()[3], None);
}

#[test]
fn successor_and_predecessor_lists_replace_wholesale() {
    let mut table = FingerTable::new(2);
    table.set_successors(vec![entry(20), entry(30)]);
    table.set_predecessors(vec![entry(5)]);
    assert_eq!(table.get_successors().as_slice(), &[entry(20), entry(30)]);
    assert_eq!(table.get_predecessors().as_slice(), &[entry(5)]);
    assert_eq!(table.get_entries().len(), 2);
}
