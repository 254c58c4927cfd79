use youmubot_osu::args::{ArgError, ModeArg, Nth, OptBeatmapSet, ScoreListStyle, UsernameArg};
use youmubot_osu::mode::Mode;
use youmubot_osu::text::{chars_of, digit, is_word, parse_u64, same_chars};

#[test]
fn chars_of_keeps_every_character_in_order() {
    assert_eq!(chars_of("a/b"), vec!['a', '/', 'b']);
    assert_eq!(chars_of(""), Vec::<char>::new());
    assert_eq!(chars_of("é1"), vec!['é', '1']);
}

#[test]
fn same_chars_compares_length_and_content() {
    assert!(same_chars(&vec!['a', 'b'], &vec!['a', 'b']));
    assert!(!same_chars(&vec!['a', 'b'], &vec!['a', 'c']));
    assert!(!same_chars(&vec!['a'], &vec!['a', 'b']));
    assert!(same_chars(&vec![], &vec![]));
}

#[test]
fn is_word_matches_the_whole_word_only() {
    assert!(is_word(&chars_of("osu"), "osu"));
    assert!(!is_word(&chars_of("osu!"), "osu"));
    assert!(!is_word(&chars_of("os"), "osu"));
}

#[test]
fn digit_reads_ascii_digits_only() {
    assert_eq!(digit('0'), Some(0));
    assert_eq!(digit('9'), Some(9));
    assert_eq!(digit('a'), None);
    assert_eq!(digit('/'), None);
    assert_eq!(digit(':'), None);
    assert_eq!(digit('٣'), None);
}

#[test]
fn parse_u64_reads_plain_numbers() {
    assert_eq!(parse_u64("0"), Some(0));
    assert_eq!(parse_u64("007"), Some(7));
    assert_eq!(parse_u64("+15"), Some(15));
    assert_eq!(parse_u64("18446744073709551615"), Some(u64::MAX));
}

#[test]
fn parse_u64_rejects_what_is_no_number() {
    assert_eq!(parse_u64(""), None);
    assert_eq!(parse_u64("+"), None);
    assert_eq!(parse_u64("-1"), None);
    assert_eq!(parse_u64("1_000"), None);
    assert_eq!(parse_u64(" 1"), None);
    assert_eq!(parse_u64("1a"), None);
    assert_eq!(parse_u64("18446744073709551616"), None);
    assert_eq!(parse_u64("99999999999999999999999999"), None);
}

#[test]
fn mode_site_tags_round_trip() {
    assert_eq!(Mode::Std.as_str_new_site(), "osu");
    assert_eq!(Mode::Taiko.as_str_new_site(), "taiko");
    assert_eq!(Mode::Catch.as_str_new_site(), "fruits");
    assert_eq!(Mode::Mania.as_str_new_site(), "mania");
    assert_eq!(Mode::parse_from_new_site("osu"), Some(Mode::Std));
    assert_eq!(Mode::parse_from_new_site("taiko"), Some(Mode::Taiko));
    assert_eq!(Mode::parse_from_new_site("fruits"), Some(Mode::Catch));
    assert_eq!(Mode::parse_from_new_site("mania"), Some(Mode::Mania));
}

#[test]
fn mode_site_tag_is_exact() {
    assert_eq!(Mode::parse_from_new_site("OSU"), None);
    assert_eq!(Mode::parse_from_new_site("std"), None);
    assert_eq!(Mode::parse_from_new_site("catch"), None);
    assert_eq!(Mode::parse_from_new_site(""), None);
}

#[test]
fn mode_keywords_cover_every_spelling() {
    assert_eq!(Mode::of_keyword("osu"), Some(Mode::Std));
    assert_eq!(Mode::of_keyword("std"), Some(Mode::Std));
    assert_eq!(Mode::of_keyword("taiko"), Some(Mode::Taiko));
    assert_eq!(Mode::of_keyword("osu!taiko"), Some(Mode::Taiko));
    assert_eq!(Mode::of_keyword("ctb"), Some(Mode::Catch));
    assert_eq!(Mode::of_keyword("fruits"), Some(Mode::Catch));
    assert_eq!(Mode::of_keyword("catch"), Some(Mode::Catch));
    assert_eq!(Mode::of_keyword("osu!ctb"), Some(Mode::Catch));
    assert_eq!(Mode::of_keyword("osu!catch"), Some(Mode::Catch));
    assert_eq!(Mode::of_keyword("mania"), Some(Mode::Mania));
    assert_eq!(Mode::of_keyword("osu!mania"), Some(Mode::Mania));
    assert_eq!(Mode::of_keyword("Taiko"), None);
    assert_eq!(Mode::of_keyword("osu!"), None);
}

#[test]
fn mode_arg_ignores_case() {
    assert_eq!(ModeArg::parse("TAIKO"), Ok(ModeArg(Mode::Taiko)));
    assert_eq!(ModeArg::parse("Osu!Mania"), Ok(ModeArg(Mode::Mania)));
    assert_eq!(ModeArg::parse("CtB"), Ok(ModeArg(Mode::Catch)));
    assert_eq!(ModeArg::parse("std"), Ok(ModeArg(Mode::Std)));
    assert_eq!(Mode::parse_keyword("FRUITS"), Some(Mode::Catch));
}

#[test]
fn mode_arg_rejects_unknown_names() {
    assert_eq!(ModeArg::parse("piano"), Err(ArgError::UnknownMode));
    assert_eq!(ModeArg::parse(""), Err(ArgError::UnknownMode));
    assert_eq!(ModeArg::parse("osu "), Err(ArgError::UnknownMode));
}

#[test]
fn mode_arg_parses_through_from_str() {
    assert_eq!("mania".parse::<ModeArg>(), Ok(ModeArg(Mode::Mania)));
    assert_eq!("nope".parse::<ModeArg>(), Err(ArgError::UnknownMode));
}

#[test]
fn nth_all_spellings() {
    assert_eq!(Nth::parse("--all"), Ok(Nth::All));
    assert_eq!(Nth::parse("-a"), Ok(Nth::All));
    assert_eq!(Nth::parse("##"), Ok(Nth::All));
}

#[test]
fn nth_reads_the_number_after_the_hash() {
    assert_eq!(Nth::parse("#1"), Ok(Nth::Nth(1)));
    assert_eq!(Nth::parse("#0"), Ok(Nth::Nth(0)));
    assert_eq!(Nth::parse("#255"), Ok(Nth::Nth(255)));
    assert_eq!(Nth::parse("#+5"), Ok(Nth::Nth(5)));
    assert_eq!(Nth::parse("#007"), Ok(Nth::Nth(7)));
}

#[test]
fn nth_rejects_numbers_that_do_not_fit() {
    assert_eq!(Nth::parse("#256"), Err(ArgError::BadNumber));
    assert_eq!(Nth::parse("#99999999999999999999999"), Err(ArgError::BadNumber));
    assert_eq!(Nth::parse("#"), Err(ArgError::BadNumber));
    assert_eq!(Nth::parse("#x"), Err(ArgError::BadNumber));
    assert_eq!(Nth::parse("#-1"), Err(ArgError::BadNumber));
    assert_eq!(Nth::parse("#1 "), Err(ArgError::BadNumber));
}

#[test]
fn nth_rejects_what_is_no_order() {
    assert_eq!(Nth::parse("3"), Err(ArgError::NotAnOrder));
    assert_eq!(Nth::parse(""), Err(ArgError::NotAnOrder));
    assert_eq!(Nth::parse("--al"), Err(ArgError::NotAnOrder));
    assert_eq!(Nth::parse("taiko"), Err(ArgError::NotAnOrder));
}

#[test]
fn nth_parses_through_from_str() {
    assert_eq!("#3".parse::<Nth>(), Ok(Nth::Nth(3)));
    assert_eq!("-a".parse::<Nth>(), Ok(Nth::All));
}

#[test]
fn beatmapset_flag_spellings() {
    assert_eq!(OptBeatmapSet::parse("--set"), Ok(OptBeatmapSet));
    assert_eq!(OptBeatmapSet::parse("-s"), Ok(OptBeatmapSet));
    assert_eq!(OptBeatmapSet::parse("--beatmapset"), Ok(OptBeatmapSet));
    assert_eq!(OptBeatmapSet::parse("--sets"), Err(ArgError::NotBeatmapSet));
    assert_eq!(OptBeatmapSet::parse(""), Err(ArgError::NotBeatmapSet));
    assert_eq!("--set".parse::<OptBeatmapSet>(), Ok(OptBeatmapSet));
}

#[test]
fn score_list_style_flags() {
    assert_eq!(ScoreListStyle::parse("--table"), Ok(ScoreListStyle::Table));
    assert_eq!(ScoreListStyle::parse("-t"), Ok(ScoreListStyle::Table));
    assert_eq!(ScoreListStyle::parse("--grid"), Ok(ScoreListStyle::Grid));
    assert_eq!(ScoreListStyle::parse("-g"), Ok(ScoreListStyle::Grid));
    assert_eq!(ScoreListStyle::parse("grid"), Err(ArgError::UnknownStyle));
    assert_eq!(ScoreListStyle::default(), ScoreListStyle::Table);
    assert_eq!("-g".parse::<ScoreListStyle>(), Ok(ScoreListStyle::Grid));
}

#[test]
fn username_arg_reads_mentions() {
    assert_eq!(UsernameArg::parse("<@123>"), Ok(UsernameArg::Tagged(123)));
    assert_eq!(UsernameArg::parse("<@!42>"), Ok(UsernameArg::Tagged(42)));
    assert_eq!(
        UsernameArg::parse("<@18446744073709551615>"),
        Ok(UsernameArg::Tagged(u64::MAX))
    );
}

#[test]
fn username_arg_takes_anything_else_as_free_text() {
    assert_eq!(UsernameArg::parse("peppy"), Ok(UsernameArg::Raw("peppy".to_string())));
    assert_eq!(UsernameArg::parse("12345"), Ok(UsernameArg::Raw("12345".to_string())));
    assert_eq!(UsernameArg::parse("<@abc>"), Ok(UsernameArg::Raw("<@abc>".to_string())));
    assert_eq!(UsernameArg::parse("<@>"), Ok(UsernameArg::Raw("<@>".to_string())));
    assert_eq!(UsernameArg::parse("<@!>"), Ok(UsernameArg::Raw("<@!>".to_string())));
    assert_eq!(UsernameArg::parse("<@12"), Ok(UsernameArg::Raw("<@12".to_string())));
    assert_eq!(UsernameArg::parse("<@+12>"), Ok(UsernameArg::Raw("<@+12>".to_string())));
    assert_eq!(
        UsernameArg::parse("<@18446744073709551616>"),
        Ok(UsernameArg::Raw("<@18446744073709551616>".to_string()))
    );
}

#[test]
fn username_arg_rejects_the_empty_token() {
    assert_eq!(UsernameArg::parse(""), Err(ArgError::Empty));
    assert_eq!("".parse::<UsernameArg>(), Err(ArgError::Empty));
}
