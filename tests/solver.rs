use lrcup::{
    available_workers, decode_hex, encode_hex, verify_nonce, ChallengeError, ChallengeResponse,
    SearchPlan, SearchStep,
};
use ring::digest::{digest, SHA256};

fn easy_target() -> String {
    let mut t = String::from("0000");
    for _ in 0..30 {
        t.push_str("FF");
    }
    t
}

fn loose_target() -> String {
    let mut t = String::from("7F");
    for _ in 0..31 {
        t.push_str("FF");
    }
    t
}

fn search_class(plan: &SearchPlan, start: u64, stride: u64) -> u64 {
    let mut cur = start;
    loop {
        match plan.search(cur, stride, 4096) {
            SearchStep::Found(n) => return n,
            SearchStep::Continue(next) => cur = next,
            SearchStep::Exhausted => panic!("class exhausted"),
        }
    }
}

fn recomputed_digest(token: &str) -> Vec<u8> {
    digest(&SHA256, token.as_bytes()).as_ref().to_vec()
}

#[test]
fn decode_known_bytes() {
    assert_eq!(decode_hex("DEADBEEF"), Some(vec![0xde, 0xad, 0xbe, 0xef]));
    assert_eq!(decode_hex("00FF10"), Some(vec![0x00, 0xff, 0x10]));
    assert_eq!(decode_hex(""), Some(vec![]));
}

#[test]
fn decode_round_trip() {
    for s in ["DEADBEEF", "0123456789ABCDEF", "", "00"] {
        let b = decode_hex(s).unwrap();
        assert_eq!(encode_hex(&b), s);
    }
    let t = easy_target();
    assert_eq!(encode_hex(&decode_hex(&t).unwrap()), t);
}

#[test]
fn decode_either_case() {
    assert_eq!(decode_hex("ab"), Some(vec![0xab]));
    assert_eq!(decode_hex("DeadBeef"), Some(vec![0xde, 0xad, 0xbe, 0xef]));
    assert_eq!(decode_hex("deadbeef"), decode_hex("DEADBEEF"));
}

#[test]
fn decode_round_trip_uppercases() {
    for s in ["deadbeef", "DeadBeef", "0a1B2c", "ff"] {
        let b = decode_hex(s).unwrap();
        assert_eq!(encode_hex(&b), s.to_ascii_uppercase());
    }
}

#[test]
fn plan_accepts_lowercase_target() {
    let lower = easy_target().to_ascii_lowercase();
    let plan = SearchPlan::new("Ch4llenge", &lower).unwrap();
    let n = search_class(&plan, 0, 1);
    assert!(verify_nonce(&recomputed_digest(&plan.token(n)), &decode_hex(&easy_target()).unwrap()));
    let upper = SearchPlan::new("Ch4llenge", &easy_target()).unwrap();
    assert_eq!(search_class(&upper, 0, 1), n);
}

#[test]
fn encode_known_text() {
    assert_eq!(encode_hex(&vec![0xde, 0xad, 0x01]), "DEAD01");
    assert_eq!(encode_hex(&vec![]), "");
}

#[test]
fn decode_rejects_odd_length() {
    assert_eq!(decode_hex("ABC"), None);
    assert_eq!(decode_hex("0"), None);
}

#[test]
fn decode_rejects_non_hex() {
    assert_eq!(decode_hex("0G"), None);
    assert_eq!(decode_hex("zz"), None);
    assert_eq!(decode_hex("gf"), None);
    assert_eq!(decode_hex("0é"), None);
}

#[test]
fn predicate_accepts_equal() {
    let t = vec![3u8, 7, 9, 200];
    assert!(verify_nonce(&t.clone(), &t));
}

#[test]
fn predicate_rejects_larger_first_byte() {
    let t = vec![5u8, 0, 0, 0];
    assert!(!verify_nonce(&vec![6, 0, 0, 0], &t));
    assert!(!verify_nonce(&vec![6, 255, 255, 255], &t));
}

#[test]
fn predicate_accepts_smaller_early_byte() {
    let t = vec![5u8, 5, 5, 5];
    assert!(verify_nonce(&vec![4, 255, 255, 255], &t));
    assert!(verify_nonce(&vec![5, 4, 255, 255], &t));
    assert!(!verify_nonce(&vec![5, 6, 0, 0], &t));
}

#[test]
fn predicate_ignores_last_byte() {
    let t = vec![1u8, 2, 3];
    assert!(verify_nonce(&vec![1, 2, 3], &t));
    assert!(verify_nonce(&vec![1, 2, 255], &t));
    assert!(verify_nonce(&vec![9], &vec![0]));
}

#[test]
fn predicate_rejects_length_mismatch() {
    assert!(!verify_nonce(&vec![0, 0], &vec![0, 0, 0]));
    assert!(verify_nonce(&vec![], &vec![]));
}

#[test]
fn plan_rejects_malformed_target() {
    assert_eq!(SearchPlan::new("Ch4llenge", "0G").err(), Some(ChallengeError::Decode));
    assert_eq!(SearchPlan::new("Ch4llenge", "000").err(), Some(ChallengeError::Decode));
}

#[test]
fn plan_rejects_short_target() {
    assert_eq!(SearchPlan::new("Ch4llenge", "00FF").err(), Some(ChallengeError::LengthMismatch));
}

#[test]
fn plan_from_challenge() {
    let c = ChallengeResponse { prefix: String::from("abc"), target: easy_target() };
    assert!(SearchPlan::from_challenge(&c).is_ok());
    let bad = ChallengeResponse { prefix: String::from("abc"), target: String::from("0G") };
    assert_eq!(SearchPlan::from_challenge(&bad).err(), Some(ChallengeError::Decode));
}

#[test]
fn token_is_prefix_colon_nonce() {
    let plan = SearchPlan::new("Ch4llenge", &easy_target()).unwrap();
    assert_eq!(plan.token(0), "Ch4llenge:0");
    assert_eq!(plan.token(1234567), "Ch4llenge:1234567");
    assert_eq!(plan.token(u64::MAX), "Ch4llenge:18446744073709551615");
}

#[test]
fn candidate_digest_is_sha256_of_token() {
    let plan = SearchPlan::new("Ch4llenge", &easy_target()).unwrap();
    let d = plan.candidate_digest(42);
    assert_eq!(d, recomputed_digest("Ch4llenge:42"));
    assert_eq!(d.len(), 32);
    assert_eq!(
        encode_hex(&SearchPlan::new("abc", &easy_target()).unwrap().candidate_digest(0)),
        encode_hex(&recomputed_digest("abc:0"))
    );
}

#[test]
fn empty_input_digest_known_value() {
    let plan = SearchPlan::new("", &easy_target()).unwrap();
    // SHA-256 of ":0"
    let d = plan.candidate_digest(0);
    assert_eq!(d, recomputed_digest(":0"));
    assert_ne!(d, b":0".to_vec());
}

#[test]
fn solve_example_challenge() {
    let plan = SearchPlan::new("Ch4llenge", &easy_target()).unwrap();
    let n = search_class(&plan, 0, 1);
    let token = plan.token(n);
    assert_eq!(token, format!("Ch4llenge:{}", n));
    let d = recomputed_digest(&token);
    assert_eq!(d[0], 0);
    assert_eq!(d[1], 0);
    assert!(verify_nonce(&d, &decode_hex(&easy_target()).unwrap()));
    assert!(plan.accepts(n));
}

#[test]
fn one_and_many_workers_both_solve() {
    let plan = SearchPlan::new("Ch4llenge", &loose_target()).unwrap();
    let target = decode_hex(&loose_target()).unwrap();
    let single = search_class(&plan, 0, 1);
    assert!(verify_nonce(&recomputed_digest(&plan.token(single)), &target));
    let workers = 4u64;
    for w in 0..workers {
        let n = search_class(&plan, w, workers);
        assert_eq!(n % workers, w);
        assert!(verify_nonce(&recomputed_digest(&plan.token(n)), &target));
    }
}

#[test]
fn search_step_continues_and_reports_first() {
    let plan = SearchPlan::new("Ch4llenge", &loose_target()).unwrap();
    match plan.search(10, 3, 0) {
        SearchStep::Continue(next) => assert_eq!(next, 10),
        other => panic!("unexpected {:?}", other),
    }
    let first = search_class(&plan, 0, 1);
    for k in 0..first {
        assert!(!plan.accepts(k));
    }
    assert_eq!(plan.search(0, 1, first + 1), SearchStep::Found(first));
    if first > 0 {
        assert_eq!(plan.search(0, 1, first), SearchStep::Continue(first));
    }
}

#[test]
fn search_step_exhausts_at_counter_end() {
    let mut t = String::new();
    for _ in 0..32 {
        t.push_str("00");
    }
    let plan = SearchPlan::new("x", &t).unwrap();
    let start = u64::MAX - 2;
    match plan.search(start, 2, 5) {
        SearchStep::Exhausted => {}
        SearchStep::Found(n) => assert!(n == start || n == u64::MAX),
        SearchStep::Continue(_) => panic!("class cannot continue past the counter's end"),
    }
}

#[test]
fn workers_at_least_one() {
    assert!(available_workers() >= 1);
}
