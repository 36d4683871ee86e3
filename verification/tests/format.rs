use stellarshot::format::{ago, shorten, Ago};

#[test]
fn paths_under_home_are_shortened() {
    let home = "/home/alex";
    assert_eq!(shorten("/home/alex", Some(home)), "~");
    assert_eq!(shorten("/home/alex/.cache", Some(home)), "~/.cache");
    assert_eq!(
        shorten("/home/alexandra/x", Some(home)),
        "/home/alexandra/x",
        "a sibling with a longer name is not inside"
    );
    assert_eq!(shorten("/media/usb", None), "/media/usb");
}

#[test]
fn ages_use_the_largest_whole_unit() {
    assert_eq!(ago(1000, 1000), Ago::JustNow);
    assert_eq!(ago(1000, 2000), Ago::JustNow, "a future time is not negative");
    assert_eq!(ago(3600, 0), Ago::Hours(1));
    assert_eq!(ago(3599, 0), Ago::Minutes(59));
    assert_eq!(ago(86_400 * 3 + 5, 0), Ago::Days(3));
}

#[test]
fn a_minute_is_sixty_seconds() {
    assert_eq!(ago(59, 0), Ago::JustNow);
    assert_eq!(ago(60, 0), Ago::Minutes(1));
    assert_eq!(ago(86_399, 0), Ago::Hours(23));
    assert_eq!(ago(86_400, 0), Ago::Days(1));
}

#[test]
fn a_trailing_slash_on_home_still_shortens() {
    assert_eq!(shorten("/home/alex/Documents", Some("/home/alex/")), "~/Documents");
    assert_eq!(shorten("/home/alex//x/./y", Some("/home/alex")), "~/x/y");
}
