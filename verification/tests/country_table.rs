use georoute::country::{code2country, country_hash, CODES, MAX_COUNTRY_HASH, SLOTS};

const LISTED: &str = "ad ae af ag ai al am ao aq ar as at au aw ax az \
    ba bb bd be bf bg bh bi bj bl bm bn bo bq br bs bt bv bw by bz \
    ca cc cd cf cg ch ci ck cl cm cn co cr cu cv cw cx cy cz \
    de dj dk dm do dz ec ee eg er es et fi fj fk fm fo fr \
    ga gb gd ge gf gg gh gi gl gm gn gp gq gr gs gt gu gw gy \
    hk hn hr ht hu id ie il im in io iq ir is it je jm jo jp \
    ke kg kh ki km kn kp kr kw ky kz la lb lc li lk lr ls lt lu lv ly \
    ma mc md me mf mg mh mk ml mm mn mo mp mq mr ms mt mu mv mw mx my mz \
    na nc ne nf ng ni nl no np nr nu nz om pa pe pf pg ph pk pl pm pn pr ps pt pw py \
    qa re ro rs ru rw sa sb sc sd se sg sh si sj sk sl sm sn so sr ss st sv sx sy sz \
    tc td tf tg th tj tk tl tm tn to tr tt tv tw tz ua ug um us uy uz \
    va vc ve vg vi vn vu wf ws xk ye yt za zm zw zz";

fn listed() -> Vec<[u8; 2]> {
    LISTED.split_whitespace().map(|c| [c.as_bytes()[0], c.as_bytes()[1]]).collect()
}

#[test]
fn every_listed_code_round_trips() {
    let codes = listed();
    assert_eq!(codes.len(), 249);
    for code in codes {
        let slot = country_hash(&code).expect("a listed code has a slot");
        assert_eq!(code2country(slot), code);
    }
}

#[test]
fn known_slots() {
    assert_eq!(country_hash(b"de"), Some(152));
    assert_eq!(country_hash(b"zz"), Some(144));
    assert_eq!(country_hash(b"mm"), Some(0));
    assert_eq!(country_hash(b"aw"), Some(318));
    assert_eq!(code2country(152), *b"de");
    assert_eq!(code2country(0), *b"mm");
    assert_eq!(code2country(318), *b"aw");
}

#[test]
fn codes_without_slot() {
    assert_eq!(country_hash(b"xx"), None);
    assert_eq!(country_hash(b"uk"), None);
    assert_eq!(country_hash(b"DE"), None);
    assert_eq!(country_hash(&[0, 0]), None);
    assert_eq!(country_hash(&[255, 255]), None);
    // the first value whose bucket lies behind the displacement table
    assert_eq!(country_hash(&[123, 196]), None);
}

#[test]
fn every_pair_of_bytes_is_answered_in_range() {
    let mut with_slot = 0;
    for first in 0..=255u8 {
        for second in 0..=255u8 {
            if let Some(slot) = country_hash(&[first, second]) {
                assert!(slot + 1 < MAX_COUNTRY_HASH);
                assert_ne!(slot, 255);
                with_slot += 1;
            }
        }
    }
    // 249 listed codes, and the unlisted pairs that share an entry with one
    assert_eq!(with_slot, 249 + 3253);
}

#[test]
fn only_listed_codes_round_trip() {
    let codes = listed();
    for first in 0..=255u8 {
        for second in 0..=255u8 {
            let code = [first, second];
            let round_trips = match country_hash(&code) {
                Some(slot) => code2country(slot) == code,
                None => false,
            };
            assert_eq!(round_trips, codes.contains(&code));
        }
    }
}

#[test]
fn unlisted_code_may_share_an_entry() {
    // "aa" is no country code, but it is displaced to the entry of "gw"
    let slot = country_hash(b"aa").unwrap();
    assert_eq!(slot, 288);
    assert_eq!(code2country(slot), *b"gw");
    assert_eq!(country_hash(b"gw"), Some(288));
}

#[test]
fn tables_have_their_sizes() {
    assert_eq!(CODES.len(), MAX_COUNTRY_HASH);
    assert_eq!(SLOTS.len(), 329);
    assert_eq!(SLOTS.iter().filter(|s| **s != 255).count(), 249);
}
