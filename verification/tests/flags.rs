use hackc_core::flags::{HhasPropertyFlags, PropertyFlag, ALL_BITS};

const FLAGS: [PropertyFlag; 11] = [
    PropertyFlag::IsAbstract,
    PropertyFlag::IsStatic,
    PropertyFlag::IsDeepInit,
    PropertyFlag::IsConst,
    PropertyFlag::IsLsb,
    PropertyFlag::IsNoBadRedeclare,
    PropertyFlag::HasSystemInitial,
    PropertyFlag::NoImplicitNull,
    PropertyFlag::InitialSatisfiesTc,
    PropertyFlag::IsLateInit,
    PropertyFlag::IsReadonly,
];

#[test]
fn each_flag_has_its_bit() {
    for (i, flag) in FLAGS.iter().enumerate() {
        assert_eq!(flag.bit(), 1u16 << i);
        assert_eq!(HhasPropertyFlags::from_flag(*flag).bits(), 1u16 << i);
    }
}

#[test]
fn set_then_query_round_trip() {
    for start in [0u16, 0x7ff, 0x155, 0x2aa] {
        for flag in FLAGS {
            let one = HhasPropertyFlags::from_flag(flag);
            let before = HhasPropertyFlags::from_bits(start).unwrap();
            let mut on = before;
            on.set(one, true);
            assert!(on.contains(one));
            let mut off = before;
            off.set(one, false);
            assert!(!off.contains(one));
            for other in FLAGS {
                if other != flag {
                    let probe = HhasPropertyFlags::from_flag(other);
                    assert_eq!(on.contains(probe), before.contains(probe));
                    assert_eq!(off.contains(probe), before.contains(probe));
                }
            }
            assert_eq!(on.bits(), start | flag.bit());
            assert_eq!(off.bits(), start & !flag.bit());
        }
    }
}

#[test]
fn empty_and_all() {
    assert_eq!(HhasPropertyFlags::empty().bits(), 0);
    assert!(HhasPropertyFlags::empty().is_empty());
    assert_eq!(HhasPropertyFlags::all().bits(), 0x7ff);
    assert_eq!(ALL_BITS, 0x7ff);
    assert!(!HhasPropertyFlags::all().is_empty());
    for flag in FLAGS {
        assert!(HhasPropertyFlags::all().contains(HhasPropertyFlags::from_flag(flag)));
        assert!(!HhasPropertyFlags::empty().contains(HhasPropertyFlags::from_flag(flag)));
    }
    assert!(HhasPropertyFlags::empty().contains(HhasPropertyFlags::empty()));
}

#[test]
fn from_bits_rejects_unknown_bits() {
    assert_eq!(HhasPropertyFlags::from_bits(0x800), None);
    assert_eq!(HhasPropertyFlags::from_bits(0xffff), None);
    assert_eq!(HhasPropertyFlags::from_bits(0x801), None);
    assert_eq!(HhasPropertyFlags::from_bits(0x7ff), Some(HhasPropertyFlags::all()));
    assert_eq!(HhasPropertyFlags::from_bits(0), Some(HhasPropertyFlags::empty()));
    assert_eq!(HhasPropertyFlags::from_bits(0x042).unwrap().bits(), 0x042);
}

#[test]
fn from_bits_truncate_drops_unknown_bits() {
    assert_eq!(HhasPropertyFlags::from_bits_truncate(0xffff).bits(), 0x7ff);
    assert_eq!(HhasPropertyFlags::from_bits_truncate(0x8002).bits(), 0x002);
    assert_eq!(HhasPropertyFlags::from_bits_truncate(0x203).bits(), 0x203);
}

#[test]
fn insert_and_remove_work_on_several_flags() {
    let mut flags = HhasPropertyFlags::from_bits(0x003).unwrap();
    flags.insert(HhasPropertyFlags::from_bits(0x406).unwrap());
    assert_eq!(flags.bits(), 0x407);
    flags.remove(HhasPropertyFlags::from_bits(0x00c).unwrap());
    assert_eq!(flags.bits(), 0x403);
    assert!(flags.contains(HhasPropertyFlags::from_bits(0x401).unwrap()));
    assert!(!flags.contains(HhasPropertyFlags::from_bits(0x405).unwrap()));
}
