use youmubot_osu::hook::{find_short_link, ShortLink};
use youmubot_osu::mode::Mode;
use youmubot_osu::mods::{Mods, DT, HD, HR, NC};

fn link(id: u64, mode: Option<Mode>, mods: Option<u64>) -> Option<ShortLink> {
    Some(ShortLink { id, mode, mods: mods.map(|bits| Mods { bits }) })
}

#[test]
fn short_link_with_id_only() {
    assert_eq!(find_short_link("/b/123"), link(123, None, None));
    assert_eq!(find_short_link("/b/0"), link(0, None, None));
    assert_eq!(find_short_link("/b/007"), link(7, None, None));
}

#[test]
fn short_link_with_mode() {
    assert_eq!(find_short_link("/b/1/osu"), link(1, Some(Mode::Std), None));
    assert_eq!(find_short_link("/b/1/taiko"), link(1, Some(Mode::Taiko), None));
    assert_eq!(find_short_link("/b/1/fruits"), link(1, Some(Mode::Catch), None));
    assert_eq!(find_short_link("/b/1/mania"), link(1, Some(Mode::Mania), None));
}

#[test]
fn short_link_with_mods() {
    assert_eq!(find_short_link("/b/5+HD"), link(5, None, Some(HD)));
    assert_eq!(find_short_link("/b/5+HDDT"), link(5, None, Some(HD | DT)));
    assert_eq!(find_short_link("/b/5+NC"), link(5, None, Some(NC | DT)));
}

#[test]
fn short_link_with_mode_and_mods() {
    assert_eq!(
        find_short_link("/b/42/taiko+HDHR"),
        link(42, Some(Mode::Taiko), Some(HD | HR))
    );
    assert_eq!(
        find_short_link("try /b/2240404/mania+DT now"),
        link(2240404, Some(Mode::Mania), Some(DT))
    );
}

#[test]
fn short_link_inside_a_sentence() {
    assert_eq!(
        find_short_link("To set your username, play `/b/777` in **osu** mode!"),
        link(777, None, None)
    );
    assert_eq!(find_short_link("(/b/7)"), link(7, None, None));
    assert_eq!(find_short_link("see\n/b/8"), link(8, None, None));
}

#[test]
fn short_link_needs_a_boundary_before_it() {
    assert_eq!(find_short_link("https://osu.ppy.sh/b/123"), None);
    assert_eq!(find_short_link("a/b/5"), None);
    assert_eq!(find_short_link("1/b/5"), None);
    assert_eq!(find_short_link("_/b/9"), None);
    assert_eq!(find_short_link("é/b/8"), link(8, None, None));
    assert_eq!(find_short_link("-/b/8"), link(8, None, None));
}

#[test]
fn short_link_takes_the_first_of_several() {
    assert_eq!(find_short_link("/b/1 /b/2"), link(1, None, None));
    assert_eq!(find_short_link("a/b/5 /b/6/osu"), link(6, Some(Mode::Std), None));
    assert_eq!(find_short_link("/b/x /b/3+HD"), link(3, None, Some(HD)));
}

#[test]
fn short_link_unknown_mode_tag_is_no_mode() {
    assert_eq!(find_short_link("/b/1/unknown"), link(1, None, None));
    assert_eq!(find_short_link("/b/1/"), link(1, None, None));
    assert_eq!(find_short_link("/b/1/Osu"), link(1, None, None));
    assert_eq!(find_short_link("/b/1/catch"), link(1, None, None));
}

#[test]
fn short_link_mode_tag_may_be_followed_by_anything() {
    assert_eq!(find_short_link("/b/1/osux"), link(1, Some(Mode::Std), None));
    assert_eq!(find_short_link("/b/1/taiko/"), link(1, Some(Mode::Taiko), None));
}

#[test]
fn short_link_mods_token_is_capital_letters() {
    assert_eq!(find_short_link("/b/1+hd"), link(1, None, None));
    assert_eq!(find_short_link("/b/1+"), link(1, None, None));
    assert_eq!(find_short_link("/b/1+HDdt"), link(1, None, Some(HD)));
    assert_eq!(find_short_link("/b/1+HD,DT"), link(1, None, Some(HD)));
}

#[test]
fn short_link_unreadable_mods_are_no_mods() {
    assert_eq!(find_short_link("/b/1+XY"), link(1, None, None));
    assert_eq!(find_short_link("/b/1+H"), link(1, None, None));
    assert_eq!(find_short_link("/b/1+HDD"), link(1, None, None));
    assert_eq!(find_short_link("/b/1/osu+ZZ"), link(1, Some(Mode::Std), None));
}

#[test]
fn short_link_mods_do_not_come_before_the_mode() {
    assert_eq!(find_short_link("/b/1+HD/osu"), link(1, None, Some(HD)));
}

#[test]
fn short_link_needs_a_number() {
    assert_eq!(find_short_link("/b/"), None);
    assert_eq!(find_short_link("/b/x"), None);
    assert_eq!(find_short_link("/b"), None);
    assert_eq!(find_short_link("/s/12"), None);
    assert_eq!(find_short_link("/B/12"), None);
    assert_eq!(find_short_link(""), None);
    assert_eq!(find_short_link("no link here"), None);
}

#[test]
fn short_link_number_must_fit() {
    assert_eq!(
        find_short_link("/b/18446744073709551615"),
        link(u64::MAX, None, None)
    );
    assert_eq!(find_short_link("/b/18446744073709551616"), None);
    assert_eq!(
        find_short_link("/b/18446744073709551616 /b/4"),
        link(4, None, None)
    );
}

#[test]
fn short_link_number_takes_all_its_digits() {
    assert_eq!(find_short_link("/b/12a"), link(12, None, None));
    assert_eq!(find_short_link("/b/12 34"), link(12, None, None));
}
