use tharsis::plan::{part_path, plan_chunks, plan_ranges, range_header, SEGMENTS};
use tharsis::models::Chunk;
use tharsis::text::Platform;

fn is_uuid_text(s: &str) -> bool {
    let b = s.as_bytes();
    s.len() == 36
        && b[14] == b'4'
        && matches!(b[19], b'8' | b'9' | b'a' | b'b')
        && s.chars().enumerate().all(|(i, c)| {
            if i == 8 || i == 13 || i == 18 || i == 23 {
                c == '-'
            } else {
                c.is_ascii_digit() || ('a'..='f').contains(&c)
            }
        })
}

#[test]
fn ranges_split_a_known_size_into_four() {
    assert_eq!(SEGMENTS, 4);
    assert_eq!(plan_ranges(100, true), vec![(0, 24), (25, 49), (50, 74), (75, 99)]);
    assert_eq!(plan_ranges(10, true), vec![(0, 1), (2, 3), (4, 5), (6, 9)]);
    assert_eq!(plan_ranges(4, true), vec![(0, 0), (1, 1), (2, 2), (3, 3)]);
}

#[test]
fn ranges_tile_the_file_for_many_sizes() {
    for total in 1..300i64 {
        let r = plan_ranges(total, true);
        assert_eq!(r.len() as i64, total.min(4));
        assert_eq!(r[0].0, 0);
        assert_eq!(r[r.len() - 1].1, total - 1);
        for i in 0..r.len() - 1 {
            assert_eq!(r[i + 1].0, r[i].1 + 1);
        }
        assert!(r.iter().all(|(s, e)| s <= e));
        let covered: i64 = r.iter().map(|(s, e)| e - s + 1).sum();
        assert_eq!(covered, total);
    }
}

#[test]
fn small_files_get_one_range_per_byte() {
    assert_eq!(plan_ranges(1, true), vec![(0, 0)]);
    assert_eq!(plan_ranges(2, true), vec![(0, 0), (1, 1)]);
    assert_eq!(plan_ranges(3, true), vec![(0, 0), (1, 1), (2, 2)]);
}

#[test]
fn without_ranges_there_is_one_whole_file_chunk() {
    assert_eq!(plan_ranges(100, false), vec![(0, -1)]);
    assert_eq!(plan_ranges(0, true), vec![(0, -1)]);
    assert_eq!(plan_ranges(-5, true), vec![(0, -1)]);
}

#[test]
fn planned_chunks_are_pending_with_fresh_ids() {
    let chunks = plan_chunks("dl-1", 100, true);
    assert_eq!(chunks.len(), 4);
    for (c, (s, e)) in chunks.iter().zip([(0, 24), (25, 49), (50, 74), (75, 99)]) {
        assert_eq!(c.download_id, "dl-1");
        assert_eq!((c.start_byte, c.end_byte), (s, e));
        assert_eq!(c.downloaded_bytes, 0);
        assert_eq!(c.status, "pending");
        assert!(is_uuid_text(&c.id), "{}", c.id);
    }
    assert_ne!(chunks[0].id, chunks[1].id);
    let single = plan_chunks("dl-2", 0, true);
    assert_eq!(single.len(), 1);
    assert_eq!((single[0].start_byte, single[0].end_byte), (0, -1));
}

fn chunk(start: i64, end: i64) -> Chunk {
    Chunk {
        id: "c1".to_string(),
        download_id: "d".to_string(),
        start_byte: start,
        end_byte: end,
        downloaded_bytes: 0,
        status: "pending".to_string(),
    }
}

#[test]
fn range_header_names_the_inclusive_range() {
    assert_eq!(range_header(&chunk(0, 24)), Some("bytes=0-24".to_string()));
    assert_eq!(range_header(&chunk(75, 99)), Some("bytes=75-99".to_string()));
    assert_eq!(range_header(&chunk(0, 0)), Some("bytes=0-0".to_string()));
    assert_eq!(range_header(&chunk(0, -1)), None);
}

#[test]
fn part_path_appends_the_chunk_id() {
    assert_eq!(part_path(Platform::Linux, "/tmp/d", "file.zip", "abc"), "/tmp/d/file.zip.part_abc");
    assert_eq!(part_path(Platform::Linux, "/tmp/d/", "f", "x"), "/tmp/d/f.part_x");
    assert_eq!(part_path(Platform::Windows, "C:\\dl", "f.zip", "x"), "C:\\dl\\f.zip.part_x");
}
