use kakitu_miner::search::{
    begin_search, is_good, lanes, reaches, work_input, work_string, Lane, Solution, Step, BATCH,
};

const BLOCK: &str = "718CC2121C3E641059BC1C2CFC45666C99E8AE922F7A807B7D07B62C995D79E2";

fn value(block: &[u8], nonce: u64) -> u64 {
    let mut input = nonce.to_le_bytes().to_vec();
    input.extend_from_slice(block);
    let digest = blake2b_simd::Params::new().hash_length(8).hash(&input);
    let mut bytes = [0u8; 8];
    bytes.copy_from_slice(digest.as_bytes());
    u64::from_le_bytes(bytes)
}

fn find(mut lane: Lane) -> Solution {
    loop {
        match lane.step(false, false) {
            Step::Found(solution) => return solution,
            Step::Running => {}
            Step::Stopped => panic!("stopped"),
        }
    }
}

fn only_lane(hash: &str, threshold: u64, base: u64) -> Lane {
    lanes(hash, threshold, base, 1).unwrap().pop().unwrap()
}

#[test]
fn work_of_a_known_block() {
    // A published pair of block and work.
    let block = hex::decode(BLOCK).unwrap();
    let nonce = 0x2bf29ef00786a6bc;
    assert!(is_good(&block, nonce, 0xffffffc000000000));
    assert!(!is_good(&block, nonce + 1, 0xffffffc000000000));
}

#[test]
fn what_is_hashed() {
    assert_eq!(work_input(&vec![0xaa, 0xbb], 1), vec![1, 0, 0, 0, 0, 0, 0, 0, 0xaa, 0xbb]);
    assert_eq!(work_input(&vec![], 0x0100), vec![0, 1, 0, 0, 0, 0, 0, 0]);
}

#[test]
fn hashes_are_read_low_byte_first() {
    assert!(reaches(&[0, 0, 0, 0, 0, 0, 0, 1], 1 << 56));
    assert!(!reaches(&[0xff, 0xff, 0xff, 0xff, 0xff, 0xff, 0xff, 0], 1 << 56));
    assert!(reaches(&[0; 8], 0));
}

#[test]
fn goodness_agrees_with_the_hash() {
    let block = vec![1, 2, 3];
    for nonce in 0..50 {
        let v = value(&block, nonce);
        assert!(is_good(&block, nonce, v));
        assert!(v == u64::MAX || !is_good(&block, nonce, v + 1));
    }
}

#[test]
fn the_first_good_nonce_is_found() {
    let block = hex::decode(BLOCK).unwrap();
    let threshold = 0xfff0000000000000;
    let base = 1_000;
    let mut expected: u64 = base;
    while value(&block, expected) < threshold {
        expected += 1;
    }
    let solution = find(only_lane(BLOCK, threshold, base));
    assert_eq!(work_string(&Some(solution)), hex::encode(expected.to_be_bytes()));
}

#[test]
fn lanes_take_their_turns() {
    let block = hex::decode(BLOCK).unwrap();
    let threshold = 0xff00000000000000;
    let base = u64::MAX - 1;
    for (i, lane) in lanes(BLOCK, threshold, base, 3).unwrap().into_iter().enumerate() {
        let mut expected = base.wrapping_add(i as u64);
        while value(&block, expected) < threshold {
            expected = expected.wrapping_add(3);
        }
        assert_eq!(work_string(&Some(find(lane))), hex::encode(expected.to_be_bytes()));
    }
}

#[test]
fn a_batch_without_a_good_nonce_goes_on() {
    let block = hex::decode("00").unwrap();
    let base = 7;
    let best = (0..BATCH).map(|k| value(&block, base + k)).max().unwrap();
    let threshold = best + 1;
    let mut lane = only_lane("00", threshold, base);
    assert!(matches!(lane.step(false, false), Step::Running));
    let mut expected = base + BATCH;
    while value(&block, expected) < threshold {
        expected += 1;
    }
    assert_eq!(work_string(&Some(find(lane))), hex::encode(expected.to_be_bytes()));
}

#[test]
fn a_search_that_is_called_off_stops() {
    let mut lane = only_lane(BLOCK, 0, 5);
    assert!(matches!(lane.step(true, false), Step::Stopped));
    assert!(matches!(lane.step(false, true), Step::Stopped));
    assert!(matches!(lane.step(true, true), Step::Stopped));
    assert_eq!(work_string(&Some(find(lane))), "0000000000000005");
}

#[test]
fn blocks_are_given_in_hexadecimal() {
    for bad in ["0", "zz", "0x00", "abc", " 00", "\u{e9}"] {
        assert!(lanes(bad, 0, 0, 2).is_none(), "{}", bad);
        assert!(begin_search(bad, 0, 2).is_none(), "{}", bad);
    }
    assert_eq!(lanes("", 0, 0, 2).unwrap().len(), 2);
    assert_eq!(lanes("00", 0, 0, 0).unwrap().len(), 0);
    let lower = find(only_lane(&BLOCK.to_lowercase(), 0xff00000000000000, 9));
    let upper = find(only_lane(BLOCK, 0xff00000000000000, 9));
    assert_eq!(work_string(&Some(lower)), work_string(&Some(upper)));
}

#[test]
fn a_search_from_a_random_base_finds_good_nonces() {
    let block = hex::decode(BLOCK).unwrap();
    let threshold = 0xff00000000000000;
    let dealt = begin_search(BLOCK, threshold, 4).unwrap();
    assert_eq!(dealt.len(), 4);
    for lane in dealt {
        let solution = find(lane);
        assert_eq!(solution.hash_text(), BLOCK);
        let work = work_string(&Some(solution));
        let nonce = u64::from_str_radix(&work, 16).unwrap();
        assert!(value(&block, nonce) >= threshold);
    }
}

#[test]
fn searches_start_at_different_bases() {
    let start = || {
        let lane = begin_search("00", 0, 1).unwrap().pop().unwrap();
        work_string(&Some(find(lane)))
    };
    let first = start();
    assert!((0..8).any(|_| start() != first));
}

#[test]
fn work_is_sixteen_lower_case_digits() {
    let solution = find(only_lane("00", 0, 0x00ABCDEF12345678));
    assert_eq!(work_string(&Some(solution)), "00abcdef12345678");
    assert_eq!(work_string(&None), "");
}
