//! The uniform model of one backend item, and its display rendering: the
//! short form is the path alone, the long form adds kind, size and
//! modification time in fixed left-aligned columns.

use vstd::prelude::*;
use vstd::string::StrSliceExecFns;
use vstd::string::StringExecFns;
use crate::format::format_size;
use crate::format::spec_format_size;

verus! {

/// One item of a backend listing. `size` is meaningful for files only, and
/// `modified` is absent when the backend cannot report a timestamp.
pub struct EntryInfo {
    pub path: String,
    pub size: u64,
    pub modified: Option<String>,
    pub is_dir: bool,
}

/// The mathematical view of an entry.
pub struct EntryView {
    pub path: Seq<char>,
    pub size: u64,
    pub modified: Option<Seq<char>>,
    pub is_dir: bool,
}

impl View for EntryInfo {
    type V = EntryView;

    open spec fn view(&self) -> EntryView {
        EntryView {
            path: self.path@,
            size: self.size,
            modified: match self.modified {
                Some(m) => Some(m@),
                None => None,
            },
            is_dir: self.is_dir,
        }
    }
}

/// The views of a sequence of entries.
pub open spec fn views_of(s: Seq<EntryInfo>) -> Seq<EntryView> {
    s.map_values(|e: EntryInfo| e@)
}

/// `n` space characters.
pub open spec fn spec_spaces(n: nat) -> Seq<char>
    decreases n,
{
    if n == 0 {
        Seq::<char>::empty()
    } else {
        spec_spaces((n - 1) as nat).push(' ')
    }
}

/// `s` padded with spaces on the right to at least `n` characters.
pub open spec fn spec_pad_right(s: Seq<char>, n: nat) -> Seq<char> {
    if s.len() >= n {
        s
    } else {
        s + spec_spaces((n - s.len()) as nat)
    }
}

/// `s` padded with spaces on the left to at least `n` characters.
pub open spec fn spec_pad_left(s: Seq<char>, n: nat) -> Seq<char> {
    if s.len() >= n {
        s
    } else {
        spec_spaces((n - s.len()) as nat) + s
    }
}

/// The display line of one entry. The short form is the path alone; the long
/// form is kind (6 columns, left), size (10 columns, right, `-` for a
/// directory), modification time (`Unknown` when absent) and path.
pub open spec fn spec_render_entry(e: EntryView, long: bool) -> Seq<char> {
    if !long {
        e.path
    } else {
        let kind = if e.is_dir {
            "DIR"@
        } else {
            "FILE"@
        };
        let size_str = if e.is_dir {
            "-"@
        } else {
            spec_format_size(e.size)
        };
        let modified = match e.modified {
            Some(m) => m,
            None => "Unknown"@,
        };
        spec_pad_right(kind, 6) + seq![' '] + spec_pad_left(size_str, 10) + seq![' '] + modified
            + seq![' '] + e.path
    }
}

/// A string of `n` spaces.
fn spaces_string(n: usize) -> (r: String)
    ensures
        r@ == spec_spaces(n as nat),
{
    let mut s = String::new();
    let mut i: usize = 0;
    while i < n
        invariant
            i <= n,
            s@ == spec_spaces(i as nat),
        decreases n - i,
    {
        s.append(" ");
        proof {
            reveal_strlit(" ");
            assert(spec_spaces(i as nat) + " "@ =~= spec_spaces((i + 1) as nat));
        }
        i = i + 1;
    }
    s
}

/// `s` padded with spaces on the right to at least `width` characters.
pub fn pad_right(s: &str, width: usize) -> (r: String)
    ensures
        r@ == spec_pad_right(s@, width as nat),
{
    let len = s.unicode_len();
    if len >= width {
        String::from_str(s)
    } else {
        let pad = spaces_string(width - len);
        String::from_str(s).concat(pad.as_str())
    }
}

/// `s` padded with spaces on the left to at least `width` characters.
pub fn pad_left(s: &str, width: usize) -> (r: String)
    ensures
        r@ == spec_pad_left(s@, width as nat),
{
    let len = s.unicode_len();
    if len >= width {
        String::from_str(s)
    } else {
        let pad = spaces_string(width - len);
        pad.concat(s)
    }
}

/// Render one entry exactly as `spec_render_entry` states.
pub fn render_entry(e: &EntryInfo, long: bool) -> (r: String)
    ensures
        r@ == spec_render_entry(e@, long),
{
    if !long {
        return String::from_str(e.path.as_str());
    }
    let kind = if e.is_dir {
        "DIR"
    } else {
        "FILE"
    };
    let size_str = if e.is_dir {
        String::from_str("-")
    } else {
        format_size(e.size)
    };
    let modified: &str = match &e.modified {
        Some(m) => m.as_str(),
        None => "Unknown",
    };
    let mut out = pad_right(kind, 6);
    out.append(" ");
    let padded = pad_left(size_str.as_str(), 10);
    out.append(padded.as_str());
    out.append(" ");
    out.append(modified);
    out.append(" ");
    out.append(e.path.as_str());
    proof {
        reveal_strlit(" ");
        assert(" "@ =~= seq![' ']);
        assert(out@ =~= spec_render_entry(e@, long));
    }
    out
}

/// Render every entry of a listing level, in the backend's order.
pub fn render_entries(entries: &Vec<EntryInfo>, long: bool) -> (lines: Vec<String>)
    ensures
        lines@.len() == entries@.len(),
        forall|i: int|
            0 <= i < lines@.len() ==> lines@[i]@ == spec_render_entry(entries@[i]@, long),
{
    let mut lines: Vec<String> = Vec::new();
    let mut i: usize = 0;
    while i < entries.len()
        invariant
            i <= entries@.len(),
            lines@.len() == i,
            forall|k: int|
                0 <= k < i ==> lines@[k]@ == spec_render_entry(entries@[k]@, long),
        decreases entries@.len() - i,
    {
        let line = render_entry(&entries[i], long);
        lines.push(line);
        i = i + 1;
    }
    lines
}

} // verus!
