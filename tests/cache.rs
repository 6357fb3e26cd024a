use posters::cache::{cache_account, flags_from_names, flags_to_names};
use posters::flag::Flags;
use posters::sync::Side;

#[test]
fn cache_rows_are_keyed_per_side() {
    let account = "account".to_string();
    assert_eq!("account:cache", cache_account(&account, Side::Local));
    assert_eq!("account", cache_account(&account, Side::Remote));
}

#[test]
fn flags_as_names() {
    let f = Flags { seen: true, flagged: true, ..Flags::default() };
    assert_eq!("seen,flagged", flags_to_names(&f));
    assert_eq!("", flags_to_names(&Flags::default()));
    let all = Flags { seen: true, answered: true, flagged: true, deleted: true, draft: true };
    assert_eq!("seen,answered,flagged,deleted,draft", flags_to_names(&all));
    assert_eq!(all, flags_from_names(&flags_to_names(&all)));
    assert_eq!(f, flags_from_names("flagged,unknown,seen"));
    assert_eq!(Flags::default(), flags_from_names(""));
    assert_eq!(Flags { draft: true, ..Flags::default() }, flags_from_names("draft,"));
}
