use ontarget::classify::AlignmentSummary;
use ontarget::error::Error;
use ontarget::index::{
    assemble, build_index, placement, rejection_error, Bin, Chunk, IndexBuilder, Metadata,
    Rejection, MAX_POSITION,
};
use ontarget::record::{
    alignment_context, is_coordinate_sorted, lenient, strict, summarize_lenient,
    summarize_strict, Field,
};

fn placed(id: usize, start: usize, end: usize, range: (u64, u64)) -> AlignmentSummary {
    AlignmentSummary {
        contig_id: Some(id),
        start: Some(start),
        end: Some(end),
        is_mapped: true,
        byte_range: range,
    }
}

fn unplaced(range: (u64, u64)) -> AlignmentSummary {
    AlignmentSummary { contig_id: None, start: None, end: None, is_mapped: false, byte_range: range }
}

#[test]
fn unsorted_stream_is_refused() {
    assert_eq!(build_index(false, &Vec::new(), 0), Err(Error::NotCoordinateSorted));
    let records = vec![placed(0, 8, 13, (144, 233))];
    assert_eq!(build_index(false, &records, 1), Err(Error::NotCoordinateSorted));
}

#[test]
fn one_record_lands_in_its_smallest_bin() {
    let records = vec![placed(0, 8, 13, (144, 233))];
    let file = build_index(true, &records, 2).unwrap();
    assert_eq!(file.references.len(), 2);
    assert_eq!(
        file.references[0].bins,
        vec![Bin { id: 4681, chunks: vec![Chunk { start: 144, end: 233 }] }]
    );
    assert_eq!(file.references[0].linear_index, vec![144]);
    assert_eq!(
        file.references[0].metadata,
        Some(Metadata { start: 144, end: 233, mapped: 1, unmapped: 0 })
    );
    assert!(file.references[1].bins.is_empty());
    assert!(file.references[1].linear_index.is_empty());
    assert_eq!(file.references[1].metadata, None);
    assert_eq!(file.unplaced, 0);
}

#[test]
fn touching_chunks_in_one_bin_are_merged() {
    let records = vec![placed(0, 8, 13, (144, 233)), placed(0, 9, 20, (233, 300))];
    let file = build_index(true, &records, 1).unwrap();
    assert_eq!(
        file.references[0].bins,
        vec![Bin { id: 4681, chunks: vec![Chunk { start: 144, end: 300 }] }]
    );
    assert_eq!(
        file.references[0].metadata,
        Some(Metadata { start: 144, end: 300, mapped: 2, unmapped: 0 })
    );
}

#[test]
fn linear_index_spans_every_window_of_the_record() {
    let records = vec![placed(0, 16385, 65536, (8, 13))];
    let file = build_index(true, &records, 1).unwrap();
    assert_eq!(file.references[0].linear_index, vec![8, 8, 8, 8]);
    assert_eq!(file.references[0].bins.len(), 1);
    assert_eq!(file.references[0].bins[0].id, 585);
}

#[test]
fn empty_stream_still_declares_every_contig() {
    let file = build_index(true, &Vec::new(), 3).unwrap();
    assert_eq!(file.references.len(), 3);
    assert!(file.references.iter().all(|r| r.bins.is_empty() && r.metadata.is_none()));
    assert_eq!(file.unplaced, 0);
    let none = build_index(true, &Vec::new(), 0).unwrap();
    assert!(none.references.is_empty());
}

#[test]
fn records_without_position_are_counted_as_unplaced() {
    let records = vec![placed(0, 8, 13, (0, 10)), unplaced((10, 20)), unplaced((20, 30))];
    let file = build_index(true, &records, 1).unwrap();
    assert_eq!(file.unplaced, 2);
    assert_eq!(file.references[0].bins.len(), 1);
    let partial = AlignmentSummary {
        contig_id: Some(0),
        start: Some(5),
        end: None,
        is_mapped: true,
        byte_range: (0, 10),
    };
    let file = build_index(true, &vec![partial], 1).unwrap();
    assert_eq!(file.unplaced, 1);
    assert!(file.references[0].bins.is_empty());
}

#[test]
fn unmapped_record_with_position_counts_for_its_contig() {
    let mut r = placed(0, 8, 13, (0, 10));
    r.is_mapped = false;
    let file = build_index(true, &vec![r], 1).unwrap();
    assert_eq!(
        file.references[0].metadata,
        Some(Metadata { start: 0, end: 10, mapped: 0, unmapped: 1 })
    );
    assert_eq!(file.unplaced, 0);
}

#[test]
fn a_step_backwards_breaks_the_sort_order() {
    let by_start = vec![placed(0, 100, 200, (0, 10)), placed(0, 99, 200, (10, 20))];
    assert_eq!(build_index(true, &by_start, 1), Err(Error::NotCoordinateSorted));
    let by_contig = vec![placed(1, 100, 200, (0, 10)), placed(0, 100, 200, (10, 20))];
    assert_eq!(build_index(true, &by_contig, 2), Err(Error::NotCoordinateSorted));
    let next_contig = vec![placed(0, 100, 200, (0, 10)), placed(1, 5, 20, (10, 20))];
    assert!(build_index(true, &next_contig, 2).is_ok());
}

#[test]
fn bad_intervals_are_malformed_records() {
    assert_eq!(
        build_index(true, &vec![placed(0, 13, 8, (0, 10))], 1),
        Err(Error::MalformedRecord)
    );
    assert_eq!(
        build_index(true, &vec![placed(0, 1, MAX_POSITION + 1, (0, 10))], 1),
        Err(Error::MalformedRecord)
    );
    assert!(build_index(true, &vec![placed(0, 1, MAX_POSITION, (0, 10))], 1).is_ok());
    assert_eq!(
        build_index(true, &vec![placed(0, 0, 8, (0, 10))], 1),
        Err(Error::MalformedRecord)
    );
    assert_eq!(
        build_index(true, &vec![placed(0, 8, 13, (10, 0))], 1),
        Err(Error::MalformedRecord)
    );
    assert_eq!(
        build_index(true, &vec![placed(0, 8, 13, (0, 10)), placed(0, 8, 13, (5, 20))], 1),
        Err(Error::MalformedRecord)
    );
}

#[test]
fn a_contig_beyond_the_header_is_a_count_mismatch() {
    assert_eq!(
        build_index(true, &vec![placed(2, 8, 13, (0, 10))], 2),
        Err(Error::ReferenceCountMismatch)
    );
    assert_eq!(
        build_index(true, &vec![placed(0, 8, 13, (0, 10))], 0),
        Err(Error::ReferenceCountMismatch)
    );
}

#[test]
fn assemble_checks_the_contig_count() {
    let empty = noodles::bam::bai::Index::default();
    let file = assemble(&empty, 0).unwrap();
    assert!(file.references.is_empty());
    assert_eq!(file.unplaced, 0);
    assert_eq!(assemble(&empty, 1), Err(Error::ReferenceCountMismatch));
}

#[test]
fn placement_needs_all_three_coordinates() {
    assert_eq!(placement(&placed(1, 2, 3, (0, 0))), Some((1, 2, 3, true)));
    assert_eq!(placement(&unplaced((0, 0))), None);
    let mut r = placed(1, 2, 3, (0, 0));
    r.contig_id = None;
    assert_eq!(placement(&r), None);
}

#[test]
fn rejections_map_to_the_two_error_kinds() {
    assert_eq!(rejection_error(Rejection::InvalidInterval), Error::MalformedRecord);
    assert_eq!(rejection_error(Rejection::EndExceedsMaxPosition), Error::MalformedRecord);
    assert_eq!(rejection_error(Rejection::OutOfOrderReference), Error::NotCoordinateSorted);
    assert_eq!(rejection_error(Rejection::OutOfOrderStart), Error::NotCoordinateSorted);
}

#[test]
fn fields_are_read_strictly_or_leniently() {
    assert_eq!(strict(Field::Absent), Ok(None));
    assert_eq!(strict(Field::Present(7)), Ok(Some(7)));
    assert_eq!(strict(Field::Unreadable), Err(Error::MalformedRecord));
    assert_eq!(lenient(Field::Absent), None);
    assert_eq!(lenient(Field::Present(7)), Some(7));
    assert_eq!(lenient(Field::Unreadable), None);
}

#[test]
fn alignment_context_fails_on_any_unreadable_field() {
    assert_eq!(
        alignment_context(Field::Present(1), Field::Present(2), Field::Absent),
        Ok((Some(1), Some(2), None))
    );
    assert_eq!(
        alignment_context(Field::Unreadable, Field::Present(2), Field::Present(3)),
        Err(Error::MalformedRecord)
    );
    assert_eq!(
        alignment_context(Field::Present(1), Field::Unreadable, Field::Present(3)),
        Err(Error::MalformedRecord)
    );
    assert_eq!(
        alignment_context(Field::Present(1), Field::Present(2), Field::Unreadable),
        Err(Error::MalformedRecord)
    );
}

#[test]
fn summaries_carry_the_fields_over() {
    let s = summarize_strict(Field::Present(1), Field::Present(2), Field::Present(3), true, (4, 5))
        .unwrap();
    assert_eq!(s, placed(1, 2, 3, (4, 5)));
    assert_eq!(
        summarize_strict(Field::Present(1), Field::Unreadable, Field::Present(3), true, (4, 5)),
        Err(Error::MalformedRecord)
    );
    let l = summarize_lenient(Field::Present(1), Field::Unreadable, Field::Present(3), false, (4, 5));
    assert_eq!(
        l,
        AlignmentSummary {
            contig_id: Some(1),
            start: None,
            end: Some(3),
            is_mapped: false,
            byte_range: (4, 5)
        }
    );
}

#[test]
fn only_the_coordinate_tag_declares_sorted() {
    assert!(is_coordinate_sorted(&Some(b"coordinate".to_vec())));
    assert!(!is_coordinate_sorted(&Some(b"queryname".to_vec())));
    assert!(!is_coordinate_sorted(&Some(b"unsorted".to_vec())));
    assert!(!is_coordinate_sorted(&Some(b"coordinatE".to_vec())));
    assert!(!is_coordinate_sorted(&Some(b"coordinates".to_vec())));
    assert!(!is_coordinate_sorted(&Some(Vec::new())));
    assert!(!is_coordinate_sorted(&None));
}

#[test]
fn error_messages_differ() {
    assert_eq!(
        Error::NotCoordinateSorted.message(),
        "the input must be coordinate-sorted to be indexed"
    );
    assert_ne!(Error::MalformedRegion.message(), Error::MalformedRecord.message());
    assert!(!Error::ReferenceCountMismatch.message().is_empty());
}

#[test]
fn builder_refuses_an_unsorted_stream_at_once() {
    assert!(matches!(IndexBuilder::new(false, 2), Err(Error::NotCoordinateSorted)));
    assert!(IndexBuilder::new(true, 2).is_ok());
}

#[test]
fn builder_takes_records_one_by_one() {
    let mut builder = IndexBuilder::new(true, 2).unwrap();
    assert_eq!(builder.cursor(), 0);
    assert_eq!(builder.add_record(&placed(0, 8, 13, (144, 233))), Ok(()));
    assert_eq!(builder.cursor(), 233);
    assert_eq!(builder.add_record(&placed(1, 1, 5, (233, 250))), Ok(()));
    assert_eq!(builder.add_record(&unplaced((250, 260))), Ok(()));
    assert_eq!(builder.cursor(), 260);
    let file = builder.finish().unwrap();
    assert_eq!(file.references.len(), 2);
    assert_eq!(
        file.references[0].bins,
        vec![Bin { id: 4681, chunks: vec![Chunk { start: 144, end: 233 }] }]
    );
    assert_eq!(
        file.references[1].bins,
        vec![Bin { id: 4681, chunks: vec![Chunk { start: 233, end: 250 }] }]
    );
    assert_eq!(file.references[1].linear_index, vec![233]);
    assert_eq!(file.unplaced, 1);
}

#[test]
fn a_refused_record_leaves_the_builder_usable() {
    let mut builder = IndexBuilder::new(true, 1).unwrap();
    assert_eq!(builder.add_record(&placed(0, 100, 200, (0, 10))), Ok(()));
    assert_eq!(builder.add_record(&placed(0, 50, 200, (10, 20))), Err(Error::NotCoordinateSorted));
    assert_eq!(builder.add_record(&placed(0, 300, 200, (10, 20))), Err(Error::MalformedRecord));
    assert_eq!(builder.add_record(&placed(1, 300, 400, (10, 20))), Err(Error::ReferenceCountMismatch));
    assert_eq!(builder.add_record(&placed(0, 100, 200, (5, 20))), Err(Error::MalformedRecord));
    assert_eq!(builder.cursor(), 10);
    assert_eq!(builder.add_record(&placed(0, 100, 300, (10, 20))), Ok(()));
    let file = builder.finish().unwrap();
    assert_eq!(
        file.references[0].metadata,
        Some(Metadata { start: 0, end: 20, mapped: 2, unmapped: 0 })
    );
}

#[test]
fn builder_and_whole_stream_agree() {
    let records = vec![
        placed(0, 8, 13, (0, 100)),
        placed(0, 20000, 40000, (100, 70000)),
        placed(1, 1, 1, (70000, 70001)),
        unplaced((70001, 70002)),
    ];
    let whole = build_index(true, &records, 3).unwrap();
    let mut builder = IndexBuilder::new(true, 3).unwrap();
    for r in records.iter() {
        builder.add_record(r).unwrap();
    }
    assert_eq!(builder.finish().unwrap(), whole);
    assert_eq!(whole.references[0].linear_index, vec![0, 100, 100]);
    assert_eq!(
        whole.references[0].bins,
        vec![Bin { id: 585, chunks: vec![Chunk { start: 0, end: 70000 }] }]
    );
    assert_eq!(whole.unplaced, 1);
}
