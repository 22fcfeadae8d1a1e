use me3_mod::cs_file::CsFile;
use me3_mod::device_scan::{find_device_manager, verify_dl_device_manager_layout, FindError, VecLayout};
use me3_mod::dl_device::{
    is_root_separator, BndSnapshot, DlDeviceManagerGuard, DlVirtualMount, DlVirtualRoot,
    EncodingError, VfsMountsLayout,
};
use me3_mod::lex::{compare_text, sort_texts, sorted_contains};

fn w(s: &str) -> Vec<u16> {
    s.encode_utf16().collect()
}

fn mount(root: &str, device: u64) -> DlVirtualMount {
    DlVirtualMount { root: Ok(w(root)), device, size: 0 }
}

fn roots_of(ms: &[DlVirtualMount]) -> Vec<String> {
    ms.iter().map(|m| String::from_utf16(m.root.as_ref().unwrap()).unwrap()).collect()
}

#[test]
fn compare_text_is_lexicographic() {
    assert_eq!(compare_text(&w("abc"), &w("abd")), -1);
    assert_eq!(compare_text(&w("abd"), &w("abc")), 1);
    assert_eq!(compare_text(&w("ab"), &w("abc")), -1);
    assert_eq!(compare_text(&w("abc"), &w("abc")), 0);
    assert_eq!(compare_text(&[], &[]), 0);
}

#[test]
fn sort_and_search_texts() {
    let sorted = sort_texts(vec![w("data3"), w("data0"), w("dlc1"), w("data0")]);
    assert_eq!(sorted, vec![w("data0"), w("data0"), w("data3"), w("dlc1")]);
    assert!(sorted_contains(&sorted, &w("dlc1")));
    assert!(sorted_contains(&sorted, &w("data0")));
    assert!(!sorted_contains(&sorted, &w("data1")));
    assert!(!sorted_contains(&sorted, &[]));
}

#[test]
fn root_separator() {
    assert!(is_root_separator(&w(":/")));
    assert!(!is_root_separator(&w("/:")));
}

#[test]
fn snapshot_membership() {
    let snap = BndSnapshot::new(vec![w("data1"), w("data0")]);
    assert!(snap.has_mount(&mount("data0", 1)));
    assert!(!snap.has_mount(&mount("dlc1", 1)));
    assert!(!snap.has_mount(&DlVirtualMount { root: Err(EncodingError), device: 1, size: 0 }));
}

#[test]
fn snapshot_fails_on_unreadable_root() {
    let guard = DlDeviceManagerGuard {
        virtual_roots: vec![],
        bnd4_mounts: vec![mount("data0", 1), DlVirtualMount { root: Err(EncodingError), device: 2, size: 0 }],
    };
    assert!(guard.snapshot().is_err());
}

#[test]
fn extract_new_takes_mounts_added_after_snapshot() {
    let mut guard = DlDeviceManagerGuard {
        virtual_roots: vec![],
        bnd4_mounts: vec![mount("data0", 1), mount("data1", 2)],
    };
    let snap = guard.snapshot().unwrap();
    guard.bnd4_mounts.insert(1, mount("dlc1", 3));
    guard.bnd4_mounts.push(mount("dlc2", 4));
    let new = guard.extract_new(snap);
    assert_eq!(roots_of(&guard.bnd4_mounts), vec!["data0", "data1"]);
    assert_eq!(new.len(), 2);
    assert_eq!(new.get(0).device, 3);
    assert_eq!(new.get(1).device, 4);
}

#[test]
fn extract_right_after_snapshot_takes_nothing() {
    let mut guard = DlDeviceManagerGuard {
        virtual_roots: vec![],
        bnd4_mounts: vec![mount("data0", 1), mount("data1", 2), mount("data0", 3)],
    };
    let snap = guard.snapshot().unwrap();
    let new = guard.extract_new(snap);
    assert!(new.is_empty());
    assert_eq!(guard.bnd4_mounts.len(), 3);
}

#[test]
fn push_then_pop_restores_mounts() {
    let mut guard = DlDeviceManagerGuard {
        virtual_roots: vec![],
        bnd4_mounts: vec![mount("data0", 1)],
    };
    let vfs = VfsMountsLayout::from_mounts(vec![mount("dlc1", 5), mount("dlc2", 6)]);
    let pushed = guard.push_vfs(&vfs);
    assert_eq!(roots_of(&guard.bnd4_mounts), vec!["data0", "dlc1", "dlc2"]);
    guard.pop_vfs(pushed);
    assert_eq!(roots_of(&guard.bnd4_mounts), vec!["data0"]);
    assert_eq!(vfs.len(), 2);
}

#[test]
fn expand_path_follows_virtual_roots() {
    let guard = DlDeviceManagerGuard {
        virtual_roots: vec![
            DlVirtualRoot { root: Ok(w("data1")), expanded: Ok(w("rom:/data1/")) },
            DlVirtualRoot { root: Ok(w("rom")), expanded: Ok(w("/game/")) },
            DlVirtualRoot { root: Ok(w("broken")), expanded: Err(EncodingError) },
        ],
        bnd4_mounts: vec![],
    };
    assert_eq!(guard.expand_path(&w("data1:/param/x.dcx")), w("/game/data1/param/x.dcx"));
    assert_eq!(guard.expand_path(&w("rom:/a")), w("/game/a"));
    assert_eq!(guard.expand_path(&w("other:/a")), w("other:/a"));
    assert_eq!(guard.expand_path(&w("broken:/a")), w("broken:/a"));
    assert_eq!(guard.expand_path(&w("no-root")), w("no-root"));
}

#[test]
fn expand_path_uses_first_root_of_a_name() {
    let guard = DlDeviceManagerGuard {
        virtual_roots: vec![
            DlVirtualRoot { root: Ok(w("d")), expanded: Err(EncodingError) },
            DlVirtualRoot { root: Ok(w("d")), expanded: Ok(w("/x/")) },
        ],
        bnd4_mounts: vec![],
    };
    assert_eq!(guard.expand_path(&w("d:/f")), w("d:/f"));
}

#[test]
fn mount_for_path_picks_first_matching_root() {
    let vfs = VfsMountsLayout::from_mounts(vec![
        DlVirtualMount { root: Err(EncodingError), device: 9, size: 0 },
        mount("data0", 1),
        mount("data0", 2),
        mount("dlc1", 3),
    ]);
    assert_eq!(vfs.mount_for_path(&w("data0:/a/b")), Some(1));
    assert_eq!(vfs.mount_for_path(&w("dlc1:/a")), Some(3));
    assert_eq!(vfs.mount_for_path(&w("data2:/a")), None);
    assert_eq!(vfs.mount_for_path(&w("data0")), None);
    assert_eq!(vfs.first_device(), Some(9));
}

#[test]
fn vfs_append_and_default() {
    let mut vfs = VfsMountsLayout::default();
    assert!(vfs.is_empty());
    assert_eq!(vfs.first_device(), None);
    vfs.append(VfsMountsLayout::from_mounts(vec![mount("dlc1", 3)]));
    vfs.append(VfsMountsLayout::from_mounts(vec![mount("dlc2", 4)]));
    assert_eq!(vfs.len(), 2);
    assert_eq!(vfs.get(1).device, 4);
    assert!(VfsMountsLayout::new().is_empty());
}

#[test]
fn virtual_mount_clone_keeps_fields() {
    let m = mount("data0", 7);
    let c = m.clone();
    assert_eq!(c.device, 7);
    assert_eq!(c.root, Ok(w("data0")));
}

const DATA_START: u64 = 0x1000;
const DATA_END: u64 = 0x1140;
const RDATA_START: u64 = 0x5000;
const RDATA_END: u64 = 0x6000;

fn manager_words(alloc_first: bool) -> Vec<u64> {
    let mut words = vec![0u64; 29];
    for &o in &[0usize, 4, 9, 13, 17] {
        let vec_words = if alloc_first {
            [DATA_START, 0x2000, 0x2008, 0x2010]
        } else {
            [0x2000, 0x2008, 0x2010, DATA_START]
        };
        words[o..o + 4].copy_from_slice(&vec_words);
    }
    words[8] = 0x3000;
    words[21] = 0x3008;
    words[22] = 0x3010;
    words[23] = 0x5010;
    words
}

#[test]
fn layout_check_accepts_plausible_manager() {
    let words = manager_words(true);
    assert!(verify_dl_device_manager_layout(&words, VecLayout::AllocatorFirst, DATA_START, DATA_END, RDATA_START, RDATA_END));
    assert!(!verify_dl_device_manager_layout(&words, VecLayout::AllocatorLast, DATA_START, DATA_END, RDATA_START, RDATA_END));
    let msvc = manager_words(false);
    assert!(verify_dl_device_manager_layout(&msvc, VecLayout::AllocatorLast, DATA_START, DATA_END, RDATA_START, RDATA_END));
}

#[test]
fn layout_check_rejects_each_broken_part() {
    let check = |w: &Vec<u64>| verify_dl_device_manager_layout(w, VecLayout::AllocatorFirst, DATA_START, DATA_END, RDATA_START, RDATA_END);
    let mut w = manager_words(true);
    w[13] = DATA_START + 8;
    assert!(!check(&w));
    let mut w = manager_words(true);
    w[6] = 0x1FF8;
    assert!(!check(&w));
    let mut w = manager_words(true);
    w[19] = 0x2009;
    assert!(!check(&w));
    let mut w = manager_words(true);
    w[8] = 0;
    assert!(!check(&w));
    let mut w = manager_words(true);
    w[22] = 0x3011;
    assert!(!check(&w));
    let mut w = manager_words(true);
    w[23] = RDATA_END;
    assert!(!check(&w));
    let mut w = manager_words(true);
    for o in [0usize, 4, 9, 13, 17] {
        w[o] = 0x9000;
    }
    assert!(!check(&w));
}

fn data_section(alloc_first: bool) -> Vec<u64> {
    // 0x1000..0x1140 holds 40 words, plus the word the scan reads at the end.
    let mut mem = vec![0u64; 41];
    mem[2] = 0x1040;
    mem[5] = 0x1138;
    let words = manager_words(alloc_first);
    mem[8..8 + 29].copy_from_slice(&words);
    mem
}

#[test]
fn scan_finds_the_device_manager() {
    let mem = data_section(true);
    let found = find_device_manager(&mem, DATA_START, DATA_END, RDATA_START, RDATA_END, VecLayout::AllocatorFirst);
    assert!(matches!(found, Ok(0x1040)));
    let msvc = data_section(false);
    let found = find_device_manager(&msvc, DATA_START, DATA_END, RDATA_START, RDATA_END, VecLayout::AllocatorLast);
    assert!(matches!(found, Ok(0x1040)));
}

#[test]
fn scan_reports_missing_instance() {
    let mem = data_section(true);
    let found = find_device_manager(&mem, DATA_START, DATA_END, RDATA_START, RDATA_END, VecLayout::AllocatorLast);
    assert!(matches!(found, Err(FindError::Instance)));
    let empty = vec![0u64; 41];
    let found = find_device_manager(&empty, DATA_START, DATA_END, RDATA_START, RDATA_END, VecLayout::AllocatorFirst);
    assert!(matches!(found, Err(FindError::Instance)));
}

#[test]
fn scan_starts_at_first_aligned_slot() {
    // .data starting at 0x1004: the first aligned slot is 0x1008.
    let mut mem = vec![0u64; 40];
    mem[1] = 0x1040;
    let mut words = manager_words(true);
    for o in [0usize, 4, 9, 13, 17] {
        words[o] = 0x1008;
    }
    mem[7..7 + 29].copy_from_slice(&words);
    let found = find_device_manager(&mem, 0x1004, DATA_END, RDATA_START, RDATA_END, VecLayout::AllocatorFirst);
    assert!(matches!(found, Ok(0x1040)));
}

#[test]
fn file_singleton_choice() {
    assert_eq!(CsFile::instance_address(Some(0x10), Some(0x20)), Some(0x10));
    assert_eq!(CsFile::instance_address(None, Some(0x20)), Some(0x20));
    assert_eq!(CsFile::instance_address(Some(0), Some(0x20)), None);
    assert_eq!(CsFile::instance_address(None, None), None);
}

#[test]
fn expand_path_within_gives_up_on_cycles() {
    let cyclic = DlDeviceManagerGuard {
        virtual_roots: vec![
            DlVirtualRoot { root: Ok(w("a")), expanded: Ok(w("b:/")) },
            DlVirtualRoot { root: Ok(w("b")), expanded: Ok(w("a:/")) },
        ],
        bnd4_mounts: vec![],
    };
    assert_eq!(cyclic.expand_path_within(&w("a:/x"), 10), None);
    assert_eq!(cyclic.expand_path_within(&w("c:/x"), 0), Some(w("c:/x")));

    let chained = DlDeviceManagerGuard {
        virtual_roots: vec![
            DlVirtualRoot { root: Ok(w("data1")), expanded: Ok(w("rom:/data1/")) },
            DlVirtualRoot { root: Ok(w("rom")), expanded: Ok(w("/game/")) },
        ],
        bnd4_mounts: vec![],
    };
    assert_eq!(chained.expand_path_within(&w("data1:/x"), 1), None);
    assert_eq!(chained.expand_path_within(&w("data1:/x"), 2), Some(w("/game/data1/x")));
}

#[test]
fn scan_reads_nothing_when_section_starts_at_zero() {
    // From address 0 the step before the first slot wraps around.
    let mut mem = vec![0u64; 41];
    mem[2] = 0x40;
    let found = find_device_manager(&mem, 0, 0x140, RDATA_START, RDATA_END, VecLayout::AllocatorFirst);
    assert!(matches!(found, Err(FindError::Instance)));
}
