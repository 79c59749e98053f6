use chrono::DateTime;
use regex::Regex;
use reservation::{ParseInfo, ReservationConflict, ReservationConflictInfo, ReservationWindow, StringHashMap, UtcTime};
use reservation::conflict::{split_timespan, strip_quotes_exec};

const ERROR_MSG: &str = "Key (resource_id, timespan)=(ocean-view-room-713, [\"2022-12-26 22:00:00+00\",\"2022-12-30 19:00:00+00\")) conflicts with existing key (resource_id, timespan)=(ocean-view-room-713, [\"2022-12-25 22:00:00+00\",\"2022-12-28 19:00:00+00\")).";

fn rfc3339(t: &UtcTime) -> String {
    DateTime::from_timestamp(t.seconds, t.nanos).unwrap().to_rfc3339()
}

#[test]
fn parsed_info_should_work() {
    let info: ParseInfo = ERROR_MSG.parse().unwrap();
    assert_eq!(info.new.get("resource_id").unwrap(), "ocean-view-room-713");
    assert_eq!(info.new.get("timespan").unwrap(), "\"2022-12-26 22:00:00+00\",\"2022-12-30 19:00:00+00\"");
    assert_eq!(info.old.get("resource_id").unwrap(), "ocean-view-room-713");
    assert_eq!(info.old.get("timespan").unwrap(), "\"2022-12-25 22:00:00+00\",\"2022-12-28 19:00:00+00\"")
}

#[test]
fn hash_map_to_reservation_window_should_work() {
    let mut map = StringHashMap::new();
    map.insert("resource_id".to_string(), "ocean-view-room-713".to_string());
    map.insert("timespan".to_string(), "\"2022-12-26 22:00:00+00\",\"2022-12-30 19:00:00+00\"".to_string());
    let window: ReservationWindow = ReservationWindow::try_from_fields(map).unwrap();
    assert_eq!(window.rid, "ocean-view-room-713");
    assert_eq!(rfc3339(&window.start), "2022-12-26T22:00:00+00:00");
    assert_eq!(rfc3339(&window.end), "2022-12-30T19:00:00+00:00");
}

#[test]
fn conflict_detail_reads_both_windows() {
    let info: ReservationConflictInfo = ERROR_MSG.parse().unwrap();
    match info {
        ReservationConflictInfo::Parsed(c) => {
            assert_eq!(c.new.rid, "ocean-view-room-713");
            assert_eq!(rfc3339(&c.new.start), "2022-12-26T22:00:00+00:00");
            assert_eq!(rfc3339(&c.new.end), "2022-12-30T19:00:00+00:00");
            assert_eq!(c.old.rid, "ocean-view-room-713");
            assert_eq!(rfc3339(&c.old.start), "2022-12-25T22:00:00+00:00");
            assert_eq!(rfc3339(&c.old.end), "2022-12-28T19:00:00+00:00");
        }
        ReservationConflictInfo::Unparsed(s) => panic!("unexpected unparsed: {}", s),
    }
}

#[test]
fn unreadable_detail_is_kept_as_text() {
    let text = "Key (resource_id, timespan)=(room, [\"not a time\",\"2022-12-28 19:00:00+00\")) conflicts with existing key (resource_id, timespan)=(room, [\"2022-12-25 22:00:00+00\",\"2022-12-28 19:00:00+00\")).";
    match ReservationConflictInfo::parse(text) {
        ReservationConflictInfo::Unparsed(s) => assert_eq!(s, text),
        ReservationConflictInfo::Parsed(_) => panic!("should not parse"),
    }
    match ReservationConflictInfo::parse("nothing to see") {
        ReservationConflictInfo::Unparsed(s) => assert_eq!(s, "nothing to see"),
        ReservationConflictInfo::Parsed(_) => panic!("should not parse"),
    }
    assert!(ReservationConflict::parse("nothing to see").is_err());
}

#[test]
fn one_report_is_not_enough() {
    let text = "Key (resource_id, timespan)=(room, [\"2022-12-25 22:00:00+00\",\"2022-12-28 19:00:00+00\"))";
    assert!(ParseInfo::parse(text).is_err());
    let three = format!("{} {} {}", text, text, text);
    assert!(ParseInfo::parse(&three).is_err());
    let two = format!("{} {}", text, text);
    assert!(ParseInfo::parse(&two).is_ok());
}

#[test]
fn window_needs_resource_and_both_times() {
    let mut map = StringHashMap::new();
    map.insert("timespan".to_string(), "\"2022-12-26 22:00:00+00\",\"2022-12-30 19:00:00+00\"".to_string());
    assert!(ReservationWindow::try_from_fields(map).is_err());

    let mut map = StringHashMap::new();
    map.insert("resource_id".to_string(), "r".to_string());
    map.insert("timespan".to_string(), "\"2022-12-26 22:00:00+00\"".to_string());
    assert!(ReservationWindow::try_from_fields(map).is_err());

    let mut map = StringHashMap::new();
    map.insert("resource_id".to_string(), "r".to_string());
    assert!(ReservationWindow::try_from_fields(map).is_err());

    let mut map = StringHashMap::new();
    map.insert("resource_id".to_string(), "r".to_string());
    map.insert("timespan".to_string(), "2022-12-26 22:00:00+0530,2022-12-30 19:00:00-01".to_string());
    let w = ReservationWindow::try_from_fields(map).unwrap();
    assert_eq!(rfc3339(&w.start), "2022-12-26T16:30:00+00:00");
    assert_eq!(rfc3339(&w.end), "2022-12-30T20:00:00+00:00");
}

#[test]
fn timespan_is_cut_at_first_comma_without_quotes() {
    assert_eq!(strip_quotes_exec("\"a\",\"b\""), "a,b");
    assert_eq!(strip_quotes_exec("\"\""), "");
    assert_eq!(split_timespan("\"a\",\"b,c\""), Some(("a".to_string(), "b,c".to_string())));
    assert_eq!(split_timespan("\"a\""), None);
    assert_eq!(split_timespan(","), Some((String::new(), String::new())));
}

fn regex_outcome(s: &str) -> Option<Vec<Vec<(String, String)>>> {
    let re = Regex::new(r#"\((?P<k1>[a-zA-Z0-9_-]+)\s*,\s*(?P<k2>[a-zA-Z0-9_-]+)\)=\((?P<v1>[a-zA-Z0-9_-]+)\s*,\s*\[(?P<v2>[^\)\]]+)"#).unwrap();
    let mut maps = vec![];
    for cap in re.captures_iter(s) {
        let mut m = std::collections::HashMap::new();
        m.insert(cap["k1"].to_string(), cap["v1"].to_string());
        m.insert(cap["k2"].to_string(), cap["v2"].to_string());
        let mut v: Vec<(String, String)> = m.into_iter().collect();
        v.sort();
        maps.push(v);
    }
    if maps.len() != 2 { None } else { Some(maps) }
}

fn sorted_fields(m: &StringHashMap<String>, keys: &[String]) -> Vec<(String, String)> {
    let mut v: Vec<(String, String)> = keys
        .iter()
        .filter_map(|k| m.get(k).map(|x| (k.clone(), x.clone())))
        .collect();
    v.sort();
    v.dedup();
    v
}

#[test]
fn reports_are_read_as_the_conflict_pattern_reads_them() {
    let cases = [
        ERROR_MSG.to_string(),
        "(a,b)=(c,[d) (e , f)=(g\t,\u{3000}[h]".to_string(),
        "((a,b)=(c,[d) (a,a)=(x,[y".to_string(),
        "(a,b)=(c,[) (a,b)=(c,[d) (k,l)=(m,[n".to_string(),
        "(a b)=(c,[d) (a,b)=(c,[d) (a,b)=(c, [z z z]".to_string(),
        "(a,b) =(c,[d) (a,b)=(c,[d) (a,b)=(c,[\n]".to_string(),
        "(é,b)=(c,[d) (a,b)=(c,[d) (a_-9,B)=(Z,[ü,ö)".to_string(),
        "(a,b)=(c,[d(a,b)=(c,[e".to_string(),
        "(a,b)=(c,[d])(a,b)=(c,[e])".to_string(),
        "(a\u{85},\u{a0}b)=(c\u{2028},\u{205f}[d) (a,b)=(c,[e".to_string(),
    ];
    for s in cases.iter() {
        let expected = regex_outcome(s);
        let got = ParseInfo::parse(s);
        match (expected, got) {
            (None, Err(())) => {}
            (Some(maps), Ok(info)) => {
                let keys: Vec<String> = maps.iter().flat_map(|m| m.iter().map(|(k, _)| k.clone())).collect();
                assert_eq!(sorted_fields(&info.new, &keys), maps[0], "{}", s);
                assert_eq!(sorted_fields(&info.old, &keys), maps[1], "{}", s);
            }
            (e, g) => panic!("disagreement on {:?}: pattern {:?}, parser ok {}", s, e, g.is_ok()),
        }
    }
}

#[test]
fn generated_lines_are_read_as_the_conflict_pattern_reads_them() {
    let alphabet: Vec<char> = "(((,,))==[[]]ab_-9 \t\u{a0}é\"x".chars().collect();
    let mut seed: u64 = 0x2545F4914F6CDD1D;
    let mut two_reports = 0;
    let mut pieces_seen = 0;
    let pieces = ["(a,b)=(c,[d", "(k , v)=(w,\t[x y", ")", "]", "(", ",", "=", "["];
    for _ in 0..4000 {
        let mut s = String::new();
        let len = 5 + (seed % 40) as usize;
        for _ in 0..len {
            seed = seed.wrapping_mul(6364136223846793005).wrapping_add(1442695040888963407);
            let pick = (seed >> 33) as usize;
            if pick % 5 == 0 {
                s.push_str(pieces[(pick / 5) % pieces.len()]);
            } else {
                s.push(alphabet[pick % alphabet.len()]);
            }
        }
        if s.contains("(a,b)=(c,[d") {
            pieces_seen += 1;
        }
        let expected = regex_outcome(&s);
        let got = ParseInfo::parse(&s);
        match (expected, got) {
            (None, Err(())) => {}
            (Some(maps), Ok(info)) => {
                two_reports += 1;
                let keys: Vec<String> = maps.iter().flat_map(|m| m.iter().map(|(k, _)| k.clone())).collect();
                assert_eq!(sorted_fields(&info.new, &keys), maps[0], "{:?}", s);
                assert_eq!(sorted_fields(&info.old, &keys), maps[1], "{:?}", s);
            }
            (e, g) => panic!("disagreement on {:?}: pattern {:?}, parser ok {}", s, e, g.is_ok()),
        }
    }
    assert!(two_reports > 10, "{} {}", two_reports, pieces_seen);
}
