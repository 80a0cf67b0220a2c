//! The texts the viewer shows about its state: the window title and the
//! messages about ratings.

use vstd::prelude::*;
use crate::image_loader::DirectoryListing;
use crate::session::RatingFilter;
use crate::metadata::MetaEntry;
use crate::text::{decimal_of, lowercase_of, push_char, push_decimal, str_eq, to_lowercase};
use vstd::utf8::encode_utf8;

verus! {

/// `n` stars.
pub open spec fn stars(n: nat) -> Seq<char> {
    Seq::new(n, |i: int| '★')
}

/// Append `n` stars to `s`.
fn push_stars(s: &mut String, n: u8)
    ensures
        final(s)@ == old(s)@ + stars(n as nat),
{
    let mut i: u8 = 0;
    while i < n
        invariant
            i <= n,
            s@ == old(s)@ + stars(i as nat),
        decreases n - i,
    {
        push_char(s, '★');
        i = i + 1;
        assert(s@ =~= old(s)@ + stars(i as nat));
    }
}

/// The window title: the open file's path (or just the application's name),
/// and, under a rating filter, its scope and threshold.
pub open spec fn window_title_text(path: Option<Seq<char>>, filter: Option<RatingFilter>, library: bool) -> Seq<char> {
    let base = match path {
        Some(p) => p + " — Rivett"@,
        None => "Rivett"@,
    };
    match filter {
        Some(f) => base + " ("@ + (if library { "Library"@ } else { "Folder"@ }) + ": ★ "@
            + decimal_of(f.value as nat) + "+)"@,
        None => base,
    }
}

/// Whether a listing is the library-wide view (it has no directory).
pub open spec fn is_library_view(listing: Option<&DirectoryListing>) -> bool {
    match listing {
        Some(l) => l.dir_path@.len() == 0,
        None => false,
    }
}

/// The window title for the open file, the session's rating filter and the
/// listing it belongs to.
pub fn window_title(current_path: Option<&str>, filter: Option<RatingFilter>, listing: Option<&DirectoryListing>) -> (r: String)
    ensures
        r@ == window_title_text(
            match current_path { Some(p) => Some(p@), None => None },
            filter,
            is_library_view(listing),
        ),
{
    let mut title = match current_path {
        Some(p) => String::from_str(p).concat(" — Rivett"),
        None => String::from_str("Rivett"),
    };
    match filter {
        Some(f) => {
            let library = match listing {
                Some(l) => l.dir_path.as_str().unicode_len() == 0,
                None => false,
            };
            title.append(" (");
            title.append(if library { "Library" } else { "Folder" });
            title.append(": ★ ");
            push_decimal(&mut title, f.value as usize);
            title.append("+)");
        },
        None => {},
    }
    title
}

/// The message shown after setting or clearing a rating.
pub open spec fn rating_message(rating: Option<u8>) -> Seq<char> {
    match rating {
        Some(r) => "Rated: "@ + stars(r as nat) + " stars"@,
        None => "Rating cleared"@,
    }
}

/// The message shown after setting or clearing a rating.
pub fn rating_toast(rating: Option<u8>) -> (r: String)
    ensures
        r@ == rating_message(rating),
{
    match rating {
        Some(n) => {
            let mut s = String::from_str("Rated: ");
            push_stars(&mut s, n);
            s.append(" stars");
            s
        },
        None => String::from_str("Rating cleared"),
    }
}

/// How the info panel shows a rating: stars and the number, or unrated.
pub open spec fn rating_label_text(rating: Option<u8>) -> Seq<char> {
    match rating {
        Some(r) => "Rating: "@ + stars(r as nat) + " ("@ + decimal_of(r as nat) + ")"@,
        None => "Rating: — (unrated)"@,
    }
}

/// The info panel's rating line.
pub fn rating_label(rating: Option<u8>) -> (r: String)
    ensures
        r@ == rating_label_text(rating),
{
    match rating {
        Some(n) => {
            let mut s = String::from_str("Rating: ");
            push_stars(&mut s, n);
            s.append(" (");
            push_decimal(&mut s, n as usize);
            s.append(")");
            s
        },
        None => String::from_str("Rating: — (unrated)"),
    }
}

/// How the info panel shows a metadata entry.
#[derive(Debug, Clone, Copy, PartialEq, Eq, Structural)]
pub enum EntryDisplay {
    /// The key, then the value, as plain lines.
    Inline,
    /// A collapsible section holding the value in a monospace editor.
    Collapsible { open_by_default: bool },
}

/// Values of several lines, or longer than 120 bytes, go into a collapsible
/// section; a multi-line `parameters` entry (the prompt that image generators
/// store, in any case) starts open.
pub open spec fn entry_display_of(key: Seq<char>, value: Seq<char>) -> EntryDisplay {
    let multiline = value.contains('\n');
    let long = encode_utf8(value).len() > 120;
    if multiline || long {
        EntryDisplay::Collapsible { open_by_default: multiline && lowercase_of(key) == "parameters"@ }
    } else {
        EntryDisplay::Inline
    }
}

/// Whether `s` holds the character `c`.
fn contains_char(s: &str, c: char) -> (r: bool)
    ensures
        r == s@.contains(c),
{
    let n = s.unicode_len();
    let mut i: usize = 0;
    while i < n
        invariant
            n == s@.len(),
            i <= n,
            forall|j: int| 0 <= j < i ==> s@[j] != c,
        decreases n - i,
    {
        if s.get_char(i) == c {
            assert(s@[i as int] == c);
            return true;
        }
        i = i + 1;
    }
    false
}

/// How the info panel shows `entry`.
pub fn entry_display(entry: &MetaEntry) -> (r: EntryDisplay)
    ensures
        r == entry_display_of(entry.key@, entry.value@),
{
    let multiline = contains_char(entry.value.as_str(), '\n');
    let long = entry.value.as_str().as_bytes().len() > 120;
    if multiline || long {
        let open = multiline && {
            let lower = to_lowercase(entry.key.as_str());
            str_eq(lower.as_str(), "parameters")
        };
        EntryDisplay::Collapsible { open_by_default: open }
    } else {
        EntryDisplay::Inline
    }
}

} // verus!
