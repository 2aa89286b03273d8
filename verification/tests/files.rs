use flyweight_http_server::files::{
    follow_up, path_is_inside, render_directory_listing, render_listing_item, DirEntry, Effect,
    Outcome,
};

fn parts(path: &str) -> Vec<String> {
    path.split('/').filter(|p| !p.is_empty()).map(|p| p.to_string()).collect()
}

#[test]
fn listing_of_an_empty_directory() {
    let html = render_directory_listing(".", &Vec::new());
    assert_eq!(
        String::from_utf8(html).unwrap(),
        "<!doctype html><meta charset=\"utf-8\"><title>Index of .</title><h1>Index of .</h1><ul>\n</ul>\n"
    );
}

#[test]
fn listing_hides_dot_entries_and_marks_directories() {
    let entries = vec![
        DirEntry { name: "b.txt".to_string(), is_dir: false },
        DirEntry { name: ".hidden".to_string(), is_dir: false },
        DirEntry { name: "docs".to_string(), is_dir: true },
        DirEntry { name: ".cache".to_string(), is_dir: true },
        DirEntry { name: "a.txt".to_string(), is_dir: false },
    ];
    let html = render_directory_listing("/data", &entries);
    assert_eq!(
        String::from_utf8(html).unwrap(),
        "<!doctype html><meta charset=\"utf-8\"><title>Index of /data</title><h1>Index of /data</h1><ul>\n\
<li><a href=\"b.txt\">b.txt</a></li>\n\
<li><a href=\"docs/\">docs/</a></li>\n\
<li><a href=\"a.txt\">a.txt</a></li>\n\
</ul>\n"
    );
}

#[test]
fn listing_item_forms() {
    assert_eq!(
        render_listing_item(&DirEntry { name: "f".to_string(), is_dir: false }),
        "<li><a href=\"f\">f</a></li>\n"
    );
    assert_eq!(
        render_listing_item(&DirEntry { name: "d".to_string(), is_dir: true }),
        "<li><a href=\"d/\">d/</a></li>\n"
    );
    assert_eq!(
        render_listing_item(&DirEntry { name: ".f".to_string(), is_dir: false }),
        ""
    );
    assert_eq!(
        render_listing_item(&DirEntry { name: "".to_string(), is_dir: false }),
        "<li><a href=\"\"></a></li>\n"
    );
    assert_eq!(
        render_listing_item(&DirEntry { name: "\u{e9}.txt".to_string(), is_dir: false }),
        "<li><a href=\"\u{e9}.txt\">\u{e9}.txt</a></li>\n"
    );
}

#[test]
fn path_inside_the_directory() {
    assert!(path_is_inside(&parts("/srv/data/f.txt"), &parts("/srv/data")));
    assert!(path_is_inside(&parts("/srv/data/a/b/c"), &parts("/srv/data")));
    assert!(path_is_inside(&parts("/srv/data"), &parts("/srv/data")));
    assert!(path_is_inside(&parts("/anything"), &parts("/")));
    assert!(path_is_inside(&Vec::new(), &Vec::new()));
}

#[test]
fn path_outside_the_directory() {
    assert!(!path_is_inside(&parts("/srv/secret"), &parts("/srv/data")));
    assert!(!path_is_inside(&parts("/srv"), &parts("/srv/data")));
    assert!(!path_is_inside(&parts("/srv/data2/f"), &parts("/srv/data")));
    assert!(!path_is_inside(&parts("/etc/passwd"), &parts("/srv/data")));
    assert!(!path_is_inside(&parts("/srv/Data/f"), &parts("/srv/data")));
    assert!(!path_is_inside(&Vec::new(), &parts("/srv")));
}

#[test]
fn missing_index_is_followed_by_a_listing() {
    let index = Effect::ReadIndex("index.html".to_string());
    assert!(matches!(
        follow_up(&index, &Outcome::Missing),
        Some(Effect::ListDirectory)
    ));
    assert!(follow_up(&index, &Outcome::Content(Vec::new())).is_none());
    assert!(follow_up(&index, &Outcome::Failed("denied".to_string())).is_none());
    assert!(follow_up(&index, &Outcome::Nothing).is_none());
}

#[test]
fn nothing_else_is_followed_up() {
    let effects = [
        Effect::Nothing,
        Effect::Sleep(10),
        Effect::ReadFile("f.txt".to_string()),
        Effect::ListDirectory,
        Effect::WriteFile("f.txt".to_string(), "B".to_string()),
    ];
    for effect in &effects {
        assert!(follow_up(effect, &Outcome::Missing).is_none());
        assert!(follow_up(effect, &Outcome::Nothing).is_none());
        assert!(follow_up(effect, &Outcome::Written).is_none());
        assert!(follow_up(effect, &Outcome::Escapes).is_none());
        assert!(follow_up(effect, &Outcome::Content(vec![1])).is_none());
        assert!(follow_up(effect, &Outcome::Entries(".".to_string(), Vec::new())).is_none());
    }
}
