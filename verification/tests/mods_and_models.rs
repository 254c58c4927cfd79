use youmubot_osu::mode::Mode;
use youmubot_osu::models::{Beatmap, BeatmapWithMode, Difficulty, UserID, MAX_LENGTH_MILLIS};
use youmubot_osu::mods::{
    Mods, UnknownMods, AP, AT, DT, EZ, FL, HD, HR, HT, NC, NF, PF, RX, SD, SO, TD,
};

fn difficulty(drain_length: u32) -> Difficulty {
    Difficulty {
        stars: 5_250,
        bpm: 180_000,
        cs: 4_000,
        od: 8_000,
        ar: 9_000,
        hp: 6_000,
        count_circle: 300,
        count_slider: 150,
        count_spinner: 2,
        max_combo: Some(700),
        drain_length,
        total_length: drain_length + 10,
    }
}

#[test]
fn mods_parse_reads_pairs_of_letters() {
    assert_eq!(Mods::parse("HDDT"), Some(Mods { bits: HD | DT }));
    assert_eq!(Mods::parse("+HDHR"), Some(Mods { bits: HD | HR }));
    assert_eq!(Mods::parse("hdhr"), Some(Mods { bits: HD | HR }));
    assert_eq!(Mods::parse("Ez"), Some(Mods { bits: EZ }));
    assert_eq!(Mods::parse("NF"), Some(Mods { bits: NF }));
}

#[test]
fn mods_parse_knows_every_code() {
    assert_eq!(
        Mods::parse("NFEZTDHDHRSDDTRXHTFLATSOAP"),
        Some(Mods { bits: NF | EZ | TD | HD | HR | SD | DT | RX | HT | FL | AT | SO | AP })
    );
    assert_eq!(NF | EZ | TD | HD | HR | SD | DT | RX | HT | NC | FL | AT | SO | AP | PF, 0x7fff);
}

#[test]
fn mods_parse_through_from_str() {
    assert_eq!("HDDT".parse::<Mods>(), Ok(Mods { bits: HD | DT }));
    assert_eq!("+".parse::<Mods>(), Ok(Mods::nomod()));
    assert_eq!("taiko".parse::<Mods>(), Err(UnknownMods));
    assert_eq!("#1".parse::<Mods>(), Err(UnknownMods));
    assert_eq!(Mods::default(), Mods::nomod());
}

#[test]
fn mods_parse_empty_token_is_nomod() {
    assert_eq!(Mods::parse(""), Some(Mods::nomod()));
    assert_eq!(Mods::parse("+"), Some(Mods::nomod()));
    assert_eq!(Mods::nomod().bits, 0);
}

#[test]
fn mods_parse_implied_modifiers() {
    assert_eq!(Mods::parse("NC"), Some(Mods { bits: NC | DT }));
    assert_eq!(Mods::parse("PF"), Some(Mods { bits: PF | SD }));
}

#[test]
fn mods_parse_rejects_unknown_codes_and_odd_lengths() {
    assert_eq!(Mods::parse("H"), None);
    assert_eq!(Mods::parse("HDD"), None);
    assert_eq!(Mods::parse("XX"), None);
    assert_eq!(Mods::parse("HD+DT"), None);
    assert_eq!(Mods::parse("++HD"), None);
    assert_eq!(Mods::parse("HD DT"), None);
}

#[test]
fn mods_parse_repeated_code_counts_once() {
    assert_eq!(Mods::parse("HDHD"), Some(Mods { bits: HD }));
}

#[test]
fn mods_contains_is_subset() {
    let hddt = Mods { bits: HD | DT };
    assert!(hddt.contains(Mods { bits: HD }));
    assert!(hddt.contains(Mods { bits: DT }));
    assert!(hddt.contains(hddt));
    assert!(hddt.contains(Mods::nomod()));
    assert!(!hddt.contains(Mods { bits: HR }));
    assert!(!hddt.contains(Mods { bits: HD | HR }));
    assert!(!Mods::nomod().contains(Mods { bits: HD }));
    assert!(Mods::nomod().contains(Mods::nomod()));
}

#[test]
fn mods_with_different_bits_differ() {
    assert_ne!(Mods { bits: HD }, Mods { bits: HD | NF });
    assert_eq!(Mods { bits: HD | NF }, Mods { bits: NF | HD });
}

#[test]
fn drain_length_without_speed_modifiers() {
    assert_eq!(difficulty(180).drain_length_with(Mods::nomod()), 180_000);
    assert_eq!(difficulty(180).drain_length_with(Mods { bits: HD | HR }), 180_000);
    assert_eq!(difficulty(0).drain_length_with(Mods { bits: DT }), 0);
}

#[test]
fn drain_length_double_time_is_two_thirds() {
    assert_eq!(difficulty(180).drain_length_with(Mods { bits: DT }), 120_000);
    assert_eq!(difficulty(100).drain_length_with(Mods { bits: DT }), 66_666);
    assert_eq!(difficulty(180).drain_length_with(Mods { bits: NC | DT }), 120_000);
    assert_eq!(difficulty(180).drain_length_with(Mods { bits: HD | DT }), 120_000);
}

#[test]
fn drain_length_half_time_is_four_thirds() {
    assert_eq!(difficulty(180).drain_length_with(Mods { bits: HT }), 240_000);
    assert_eq!(difficulty(100).drain_length_with(Mods { bits: HT }), 133_333);
}

#[test]
fn drain_length_both_speed_modifiers_apply_in_turn() {
    assert_eq!(difficulty(180).drain_length_with(Mods { bits: HT | DT }), 160_000);
    assert_eq!(difficulty(100).drain_length_with(Mods { bits: HT | DT }), 88_888);
}

#[test]
fn drain_length_of_the_longest_beatmap_fits() {
    let longest = Difficulty { drain_length: u32::MAX, ..difficulty(0) };
    assert_eq!(longest.drain_length_with(Mods { bits: HT }), MAX_LENGTH_MILLIS);
    assert_eq!(longest.drain_length_with(Mods::nomod()), 4_294_967_295_000);
    assert_eq!(MAX_LENGTH_MILLIS, 4_294_967_295_000 * 4 / 3);
}

#[test]
fn beatmap_with_mode_hands_out_its_parts() {
    let beatmap = Beatmap {
        beatmap_id: 11,
        beatmapset_id: 3,
        mode: Mode::Std,
        difficulty: difficulty(90),
    };
    let pair = BeatmapWithMode(beatmap, Mode::Taiko);
    assert_eq!(pair.mode(), Mode::Taiko);
    assert_eq!(*pair.as_ref(), beatmap);
    assert_eq!(pair.as_ref().mode, Mode::Std);
}

#[test]
fn user_id_from_a_number_is_an_id() {
    assert_eq!(UserID::from_string("123".to_string()), UserID::ID(123));
    assert_eq!(UserID::from_string("+5".to_string()), UserID::ID(5));
    assert_eq!(UserID::from_string("0".to_string()), UserID::ID(0));
    assert_eq!(
        UserID::from_string("18446744073709551615".to_string()),
        UserID::ID(u64::MAX)
    );
}

#[test]
fn user_id_from_anything_else_is_a_name() {
    assert_eq!(
        UserID::from_string("peppy".to_string()),
        UserID::Username("peppy".to_string())
    );
    assert_eq!(
        UserID::from_string("123abc".to_string()),
        UserID::Username("123abc".to_string())
    );
    assert_eq!(UserID::from_string("".to_string()), UserID::Username("".to_string()));
    assert_eq!(
        UserID::from_string("18446744073709551616".to_string()),
        UserID::Username("18446744073709551616".to_string())
    );
}
