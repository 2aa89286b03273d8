//! What passes between the router and the file system.
//!
//! The router decides; it does not touch a disk. For a request it names the `Effect`
//! that has to happen outside, and from the `Outcome` that is reported back it builds the
//! response.
use vstd::prelude::*;
use vstd::string::{StrSliceExecFns, StringExecFns};
use vstd::utf8::encode_utf8;

verus! {

/// One entry of a directory.
#[derive(Debug)]
pub struct DirEntry {
    pub name: String,
    pub is_dir: bool,
}

/// What has to happen outside before a request can be answered.
#[derive(Debug)]
pub enum Effect {
    /// Nothing.
    Nothing,
    /// Wait for this many seconds.
    Sleep(u64),
    /// Resolve the named file below the data directory, make sure that it does not lie
    /// outside, and read it.
    ReadFile(String),
    /// Read the named default document of the data directory.
    ReadIndex(String),
    /// List the entries of the data directory.
    ListDirectory,
    /// Create or overwrite the named file below the data directory with this content.
    WriteFile(String, String),
}

/// What happened outside.
#[derive(Debug)]
pub enum Outcome {
    /// Nothing was done.
    Nothing,
    /// A file was read; these are its bytes.
    Content(Vec<u8>),
    /// There is no such file.
    Missing,
    /// The directory was listed; these are the directory as it is shown and its entries.
    Entries(String, Vec<DirEntry>),
    /// The file resolves to a place outside the data directory, and was not read.
    Escapes,
    /// The file system reported a failure; this is its description.
    Failed(String),
    /// The file was written.
    Written,
}

/// An effect as a mathematical value.
pub enum EffectView {
    Nothing,
    Sleep(nat),
    ReadFile(Seq<char>),
    ReadIndex(Seq<char>),
    ListDirectory,
    WriteFile(Seq<char>, Seq<char>),
}

/// An outcome as a mathematical value.
pub enum OutcomeView {
    Nothing,
    Content(Seq<u8>),
    Missing,
    Entries(Seq<char>, Seq<(Seq<char>, bool)>),
    Escapes,
    Failed(Seq<char>),
    Written,
}

/// The entries of a directory as pairs of a name and whether it is a directory.
pub open spec fn entries_view(es: Seq<DirEntry>) -> Seq<(Seq<char>, bool)> {
    Seq::new(es.len(), |i: int| (es[i].name@, es[i].is_dir))
}

/// The names in a list of path components.
pub open spec fn names_view(v: Seq<String>) -> Seq<Seq<char>> {
    Seq::new(v.len(), |i: int| v[i]@)
}

impl View for Effect {
    type V = EffectView;

    open spec fn view(&self) -> EffectView {
        match self {
            Effect::Nothing => EffectView::Nothing,
            Effect::Sleep(s) => EffectView::Sleep(*s as nat),
            Effect::ReadFile(name) => EffectView::ReadFile(name@),
            Effect::ReadIndex(name) => EffectView::ReadIndex(name@),
            Effect::ListDirectory => EffectView::ListDirectory,
            Effect::WriteFile(name, content) => EffectView::WriteFile(name@, content@),
        }
    }
}

impl View for Outcome {
    type V = OutcomeView;

    open spec fn view(&self) -> OutcomeView {
        match self {
            Outcome::Nothing => OutcomeView::Nothing,
            Outcome::Content(b) => OutcomeView::Content(b@),
            Outcome::Missing => OutcomeView::Missing,
            Outcome::Entries(dir, es) => OutcomeView::Entries(dir@, entries_view(es@)),
            Outcome::Escapes => OutcomeView::Escapes,
            Outcome::Failed(msg) => OutcomeView::Failed(msg@),
            Outcome::Written => OutcomeView::Written,
        }
    }
}

/// What has to happen next, once `effect` has had the outcome `out`: where the default
/// document is missing, the directory is listed in its place. Nothing else is followed up.
pub open spec fn follow_up_of(effect: EffectView, out: OutcomeView) -> Option<EffectView> {
    match (effect, out) {
        (EffectView::ReadIndex(_), OutcomeView::Missing) => Some(EffectView::ListDirectory),
        _ => None,
    }
}

/// What has to happen next, once `effect` has had the outcome `outcome`. Where there is
/// nothing, `outcome` is what the response is built from.
pub fn follow_up(effect: &Effect, outcome: &Outcome) -> (next: Option<Effect>)
    ensures
        match next {
            Some(e) => follow_up_of(effect@, outcome@) == Some(e@),
            None => follow_up_of(effect@, outcome@) is None,
        },
{
    match (effect, outcome) {
        (Effect::ReadIndex(_), Outcome::Missing) => Some(Effect::ListDirectory),
        _ => None,
    }
}

/// The line of a directory listing for one entry: nothing for a name that begins with a
/// dot, else a list item that links to the entry, a directory shown with a trailing `/`.
pub open spec fn listing_item(name: Seq<char>, is_dir: bool) -> Seq<char> {
    if name.len() > 0 && name[0] == '.' {
        Seq::empty()
    } else {
        let shown = if is_dir {
            name + "/"@
        } else {
            name
        };
        "<li><a href=\""@ + shown + "\">"@ + shown + "</a></li>\n"@
    }
}

/// The lines for the first `k` entries, in their order.
pub open spec fn listing_items(es: Seq<(Seq<char>, bool)>, k: int) -> Seq<char>
    decreases k,
{
    if 0 < k <= es.len() {
        listing_items(es, k - 1) + listing_item(es[k - 1].0, es[k - 1].1)
    } else {
        Seq::empty()
    }
}

/// The page that lists a directory.
pub open spec fn listing_text(dir: Seq<char>, es: Seq<(Seq<char>, bool)>) -> Seq<char> {
    "<!doctype html><meta charset=\"utf-8\"><title>Index of "@ + dir + "</title><h1>Index of "@
        + dir + "</h1><ul>\n"@ + listing_items(es, es.len() as int) + "</ul>\n"@
}

/// The line of a directory listing for one entry.
pub fn render_listing_item(entry: &DirEntry) -> (item: String)
    ensures
        item@ == listing_item(entry.name@, entry.is_dir),
{
    let name = entry.name.as_str();
    if name.unicode_len() > 0 && name.get_char(0) == '.' {
        return String::new();
    }
    let shown = if entry.is_dir {
        name.to_owned().concat("/")
    } else {
        name.to_owned()
    };
    let mut item = "<li><a href=\"".to_owned();
    item.append(shown.as_str());
    item.append("\">");
    item.append(shown.as_str());
    item.append("</a></li>\n");
    item
}

/// Renders the page that lists a directory, in UTF-8.
pub fn render_directory_listing(dir: &str, entries: &Vec<DirEntry>) -> (html: Vec<u8>)
    ensures
        html@ == encode_utf8(listing_text(dir@, entries_view(entries@))),
{
    let ghost es = entries_view(entries@);
    let mut items = String::new();
    let mut i: usize = 0;
    while i < entries.len()
        invariant
            i <= entries.len(),
            es == entries_view(entries@),
            items@ == listing_items(es, i as int),
        decreases entries.len() - i,
    {
        let item = render_listing_item(&entries[i]);
        assert(es[i as int] == (entries@[i as int].name@, entries@[i as int].is_dir));
        items.append(item.as_str());
        i += 1;
    }
    let mut page = "<!doctype html><meta charset=\"utf-8\"><title>Index of ".to_owned();
    page.append(dir);
    page.append("</title><h1>Index of ");
    page.append(dir);
    page.append("</h1><ul>\n");
    page.append(items.as_str());
    page.append("</ul>\n");
    page.as_str().as_bytes_vec()
}

/// Whether `path` lies at or below `dir`, both given as their components from the root:
/// it does where the components of `dir` are the first components of `path`.
pub fn path_is_inside(path: &Vec<String>, dir: &Vec<String>) -> (r: bool)
    ensures
        r == names_view(dir@).is_prefix_of(names_view(path@)),
{
    if dir.len() > path.len() {
        return false;
    }
    let mut i: usize = 0;
    while i < dir.len()
        invariant
            i <= dir.len() <= path.len(),
            forall|j: int| 0 <= j < i ==> (#[trigger] dir@[j])@ == path@[j]@,
        decreases dir.len() - i,
    {
        if dir[i] != path[i] {
            assert(names_view(dir@)[i as int] != names_view(path@).subrange(
                0,
                dir@.len() as int,
            )[i as int]);
            return false;
        }
        i += 1;
    }
    assert(names_view(dir@) =~= names_view(path@).subrange(0, dir@.len() as int));
    true
}

} // verus!
