use couchmic::logfile::{rotate_if_larger, rotated_path, RotatingFile, RETRY_EVERY};
use std::collections::BTreeMap;

const LOG: &str = "glass-mic.log";
const OLD: &str = "glass-mic.log.1";

/// A disk with files by name.
struct Disk {
    files: BTreeMap<String, Vec<u8>>,
    locked: bool,
}

impl Disk {
    fn new(locked: bool) -> Disk {
        Disk { files: BTreeMap::new(), locked }
    }

    fn put(&mut self, name: &str, content: &[u8]) {
        self.files.insert(name.to_string(), content.to_vec());
    }

    fn size(&self, name: &str) -> Option<u64> {
        self.files.get(name).map(|f| f.len() as u64)
    }

    fn rotate(&mut self, max_bytes: u64) -> bool {
        let move_it = rotate_if_larger(self.size(LOG), max_bytes) && !self.locked;
        if move_it {
            let content = self.files.remove(LOG).unwrap();
            self.files.insert(rotated_path(LOG), content);
        }
        move_it
    }

    fn write(&mut self, f: &mut RotatingFile, line: &[u8], now: u64) {
        let len = line.len() as u64;
        if f.wants_rotation(len, now) {
            self.rotate(0);
            let size = self.files.entry(LOG.to_string()).or_default().len() as u64;
            f.rotated(now, Some(size));
        }
        if f.accepts(len) {
            self.files.entry(LOG.to_string()).or_default().extend_from_slice(line);
            f.wrote(len);
        }
    }
}

const LINE: &[u8] = b"0123456789012345678\n";

#[test]
fn rotates_only_when_too_large() {
    let mut d = Disk::new(false);
    assert!(!d.rotate(10), "missing file is fine");
    d.put(LOG, b"12345");
    assert!(!d.rotate(10));
    d.put(LOG, b"0123456789abc");
    d.put(OLD, b"older");
    assert!(d.rotate(10));
    assert!(d.size(LOG).is_none());
    assert_eq!(d.files[OLD], b"0123456789abc", "older rotation is replaced");
    assert!(!rotate_if_larger(Some(10), 10));
    assert!(rotate_if_larger(Some(11), 10));
}

#[test]
fn rotates_while_running_and_stays_bounded() {
    let mut d = Disk::new(false);
    d.put(LOG, b"");
    let mut f = RotatingFile::open(100, 0);
    for i in 0..50 {
        d.write(&mut f, LINE, i); // 20 bytes per line
    }
    let cur = d.size(LOG).unwrap();
    let old = d.size(OLD).unwrap();
    assert!(cur <= 100, "current file bounded: {cur}");
    assert!(old <= 100, "rotated file bounded: {old}");
    assert_eq!((cur, old), (100, 100));
    assert!(d.size("glass-mic.log.2").is_none());
    assert_eq!(d.files.len(), 2);
}

#[test]
fn hard_cap_when_rotation_is_impossible() {
    let mut d = Disk::new(true);
    d.put(LOG, b"");
    let mut f = RotatingFile::open(100, 0);
    for _ in 0..100 {
        d.write(&mut f, LINE, 5);
    }
    let cur = d.size(LOG).unwrap();
    assert!(cur <= 200, "never beyond twice the limit: {cur}");
    assert_eq!(cur, 200);
    assert!(d.size(OLD).is_none());
}

#[test]
fn failed_rotations_are_retried_once_a_minute() {
    let mut f = RotatingFile::open(100, 90);
    assert!(!f.wants_rotation(10, 0));
    assert!(f.wants_rotation(11, 0));
    f.rotated(1_000, Some(90));
    assert!(!f.wants_rotation(11, 1_000 + RETRY_EVERY - 1));
    assert!(f.wants_rotation(11, 1_000 + RETRY_EVERY));
    f.rotated(2_000, Some(0));
    assert!(!f.wants_rotation(500, 2_000), "an empty file stays");
    assert!(f.accepts(200) && !f.accepts(201));
}

#[test]
fn lines_are_dropped_while_no_file_is_open() {
    let mut f = RotatingFile::open(100, 100);
    f.rotated(0, None);
    assert!(!f.accepts(1));
    assert!(!f.wants_rotation(1, u64::MAX));
    let mut huge = RotatingFile::open(u64::MAX, u64::MAX - 1);
    assert!(huge.accepts(1) && !huge.accepts(2));
    huge.wrote(1);
    assert!(huge.accepts(0) && !huge.accepts(1));
}
