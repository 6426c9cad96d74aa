use ontarget::classify::{classify, AlignmentSummary, Label};
use ontarget::error::Error;
use ontarget::region::{
    bytes_eq, find_contig, resolve_region, RegionRecord, RegionSet, TargetRegion,
};

fn names() -> Vec<Vec<u8>> {
    vec![b"chr1".to_vec(), b"chr2".to_vec(), b"chrM".to_vec()]
}

fn record(name: &[u8], start: Option<usize>, end: Option<usize>) -> RegionRecord {
    RegionRecord { contig_name: name.to_vec(), start, end }
}

#[test]
fn load_converts_to_one_based_inclusive() {
    let set = RegionSet::load(&vec![record(b"chr2", Some(99), Some(200))], &names()).unwrap();
    assert_eq!(set.len(), 1);
    assert_eq!(set.get(0), TargetRegion { contig_id: 1, start: 100, end: 200 });
    assert!(set.contains(TargetRegion { contig_id: 1, start: 100, end: 200 }));
    assert!(!set.contains(TargetRegion { contig_id: 1, start: 99, end: 200 }));
}

#[test]
fn load_collapses_duplicates() {
    let records = vec![
        record(b"chr1", Some(0), Some(10)),
        record(b"chr1", Some(5), Some(10)),
        record(b"chr1", Some(0), Some(10)),
    ];
    let set = RegionSet::load(&records, &names()).unwrap();
    assert_eq!(set.len(), 2);
    assert_eq!(set.get(0), TargetRegion { contig_id: 0, start: 1, end: 10 });
    assert_eq!(set.get(1), TargetRegion { contig_id: 0, start: 6, end: 10 });
}

#[test]
fn load_drops_unknown_contigs() {
    let records = vec![
        record(b"chrX", Some(99), Some(200)),
        record(b"chr", Some(99), Some(200)),
        record(b"chr11", Some(99), Some(200)),
    ];
    let set = RegionSet::load(&records, &names()).unwrap();
    assert_eq!(set.len(), 0);
    let read = AlignmentSummary {
        contig_id: Some(0),
        start: Some(100),
        end: Some(200),
        is_mapped: true,
        byte_range: (0, 0),
    };
    assert_eq!(classify(&read, &set, 0), Label::OffTarget);
}

#[test]
fn load_skips_malformed_records_on_unknown_contigs() {
    let records = vec![record(b"chrX", None, None), record(b"chr1", Some(0), Some(1))];
    let set = RegionSet::load(&records, &names()).unwrap();
    assert_eq!(set.len(), 1);
    assert_eq!(set.get(0), TargetRegion { contig_id: 0, start: 1, end: 1 });
}

#[test]
fn load_fails_on_unresolvable_coordinates() {
    let bad = [
        record(b"chr1", None, Some(5)),
        record(b"chr1", Some(5), None),
        record(b"chr1", Some(0), Some(0)),
        record(b"chr1", Some(usize::MAX), Some(5)),
    ];
    for b in bad.iter() {
        let records = vec![record(b"chr2", Some(1), Some(2)), b.clone()];
        assert!(matches!(RegionSet::load(&records, &names()), Err(Error::MalformedRegion)));
    }
}

#[test]
fn load_of_nothing_is_empty() {
    let set = RegionSet::load(&Vec::new(), &names()).unwrap();
    assert_eq!(set.len(), 0);
}

#[test]
fn insert_reports_whether_new() {
    let mut set = RegionSet::new();
    let r = TargetRegion { contig_id: 0, start: 1, end: 2 };
    assert!(set.insert(r));
    assert!(!set.insert(r));
    assert!(set.insert(TargetRegion { contig_id: 0, start: 1, end: 3 }));
    assert_eq!(set.len(), 2);
}

#[test]
fn contig_ids_follow_header_order() {
    assert_eq!(find_contig(&names(), &b"chr1".to_vec()), Some(0));
    assert_eq!(find_contig(&names(), &b"chrM".to_vec()), Some(2));
    assert_eq!(find_contig(&names(), &b"chr3".to_vec()), None);
    assert_eq!(find_contig(&Vec::new(), &b"chr1".to_vec()), None);
    let twice = vec![b"a".to_vec(), b"b".to_vec(), b"a".to_vec()];
    assert_eq!(find_contig(&twice, &b"a".to_vec()), Some(0));
}

#[test]
fn resolve_region_shifts_the_start_only() {
    assert_eq!(
        resolve_region(4, Some(0), Some(1)),
        Ok(TargetRegion { contig_id: 4, start: 1, end: 1 })
    );
    assert_eq!(
        resolve_region(4, Some(usize::MAX - 1), Some(usize::MAX)),
        Ok(TargetRegion { contig_id: 4, start: usize::MAX, end: usize::MAX })
    );
    assert_eq!(resolve_region(4, Some(0), Some(0)), Err(Error::MalformedRegion));
    assert_eq!(resolve_region(4, None, None), Err(Error::MalformedRegion));
}

#[test]
fn byte_strings_compare_by_content() {
    assert!(bytes_eq(&b"abc".to_vec(), &b"abc".to_vec()));
    assert!(!bytes_eq(&b"abc".to_vec(), &b"abd".to_vec()));
    assert!(!bytes_eq(&b"abc".to_vec(), &b"ab".to_vec()));
    assert!(bytes_eq(&Vec::new(), &Vec::new()));
}
