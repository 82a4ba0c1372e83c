//! The key-value file `payload_properties.txt` that may sit beside a payload.

use vstd::prelude::*;
use vstd::string::StringExecFns;
use crate::manifest::opt_str_view;

verus! {

/// What the properties file gives.
#[derive(Clone, Debug, Default)]
pub struct PayloadProperties {
    pub file_hash: Option<String>,
    pub file_size: Option<u64>,
    pub metadata_hash: Option<String>,
    pub metadata_size: Option<u64>,
}

pub ghost struct PropertiesView {
    pub file_hash: Option<Seq<char>>,
    pub file_size: Option<u64>,
    pub metadata_hash: Option<Seq<char>>,
    pub metadata_size: Option<u64>,
}

impl View for PayloadProperties {
    type V = PropertiesView;

    open spec fn view(&self) -> PropertiesView {
        PropertiesView {
            file_hash: opt_str_view(self.file_hash),
            file_size: self.file_size,
            metadata_hash: opt_str_view(self.metadata_hash),
            metadata_size: self.metadata_size,
        }
    }
}

/// The characters with the Unicode property White_Space.
pub open spec fn is_white_space(c: char) -> bool {
    let u = c as u32;
    (9 <= u <= 13) || u == 32 || u == 0x85 || u == 0xa0 || u == 0x1680 || (0x2000 <= u <= 0x200a)
        || u == 0x2028 || u == 0x2029 || u == 0x202f || u == 0x205f || u == 0x3000
}

pub open spec fn trim_start(s: Seq<char>) -> Seq<char>
    decreases s.len(),
{
    if s.len() > 0 && is_white_space(s[0]) {
        trim_start(s.skip(1))
    } else {
        s
    }
}

pub open spec fn trim_end(s: Seq<char>) -> Seq<char>
    decreases s.len(),
{
    if s.len() > 0 && is_white_space(s.last()) {
        trim_end(s.drop_last())
    } else {
        s
    }
}

/// `s` without white space at either end.
pub open spec fn trim(s: Seq<char>) -> Seq<char> {
    trim_end(trim_start(s))
}

/// The index of the first '=' in `s` at or after `from`.
pub open spec fn find_eq(s: Seq<char>, from: int) -> Option<int>
    decreases s.len() - from,
{
    if from < 0 || from >= s.len() {
        None
    } else if s[from] == '=' {
        Some(from)
    } else {
        find_eq(s, from + 1)
    }
}

pub open spec fn is_digit(c: char) -> bool {
    48 <= (c as u32) <= 57
}

pub open spec fn digits_value(s: Seq<char>) -> nat
    decreases s.len(),
{
    if s.len() == 0 {
        0
    } else {
        digits_value(s.drop_last()) * 10 + ((s.last() as u32) - 48) as nat
    }
}

/// What `str::parse::<u64>` makes of `s`: an optional '+' and then at least
/// one decimal digit and nothing else, whose value fits in 64 bits.
pub open spec fn parsed_u64(s: Seq<char>) -> Option<u64> {
    let d = if s.len() > 0 && s[0] == '+' {
        s.skip(1)
    } else {
        s
    };
    if d.len() > 0 && (forall|i: int| 0 <= i < d.len() ==> is_digit(#[trigger] d[i]))
        && digits_value(d) <= u64::MAX {
        Some(digits_value(d) as u64)
    } else {
        None
    }
}

/// Relies on u64's FromStr, through str::parse: an optional '+' and then
/// decimal digits only, whose value fits in 64 bits; anything else fails.
#[verifier::external_body]
fn parse_u64(s: &str) -> (r: Option<u64>)
    ensures
        r == parsed_u64(s@),
{
    match s.parse::<u64>() {
        Ok(v) => Some(v),
        Err(_) => None,
    }
}

/// The properties after one more line: a line with an '=' is split at the
/// first one, both sides are trimmed, and four keys are known.  A key seen
/// again replaces the earlier value; a size that is not an unsigned integer,
/// and every other line, change nothing.
pub open spec fn apply_line(p: PropertiesView, line: Seq<char>) -> PropertiesView {
    match find_eq(line, 0) {
        None => p,
        Some(i) => {
            let key = trim(line.subrange(0, i));
            let value = trim(line.subrange(i + 1, line.len() as int));
            if key == "FILE_HASH"@ {
                PropertiesView { file_hash: Some(value), ..p }
            } else if key == "FILE_SIZE"@ {
                match parsed_u64(value) {
                    Some(v) => PropertiesView { file_size: Some(v), ..p },
                    None => p,
                }
            } else if key == "METADATA_HASH"@ {
                PropertiesView { metadata_hash: Some(value), ..p }
            } else if key == "METADATA_SIZE"@ {
                match parsed_u64(value) {
                    Some(v) => PropertiesView { metadata_size: Some(v), ..p },
                    None => p,
                }
            } else {
                p
            }
        },
    }
}

/// The properties that the lines give, read in order.
pub open spec fn properties_of(lines: Seq<Seq<char>>) -> PropertiesView
    decreases lines.len(),
{
    if lines.len() == 0 {
        PropertiesView { file_hash: None, file_size: None, metadata_hash: None, metadata_size: None }
    } else {
        apply_line(properties_of(lines.drop_last()), lines.last())
    }
}

/// Whether `c` has the Unicode property White_Space.
fn white_space(c: char) -> (r: bool)
    ensures
        r == is_white_space(c),
{
    let u = c as u32;
    (9 <= u && u <= 13) || u == 32 || u == 0x85 || u == 0xa0 || u == 0x1680 || (0x2000 <= u && u
        <= 0x200a) || u == 0x2028 || u == 0x2029 || u == 0x202f || u == 0x205f || u == 0x3000
}

/// The chars of `s` from `from` to `to`, without white space at either end.
fn trimmed(s: &str, from: usize, to: usize) -> (r: String)
    requires
        from <= to <= s@.len(),
    ensures
        r@ == trim(s@.subrange(from as int, to as int)),
{
    let ghost whole = s@.subrange(from as int, to as int);
    let mut a = from;
    while a < to && white_space(s.get_char(a))
        invariant
            from <= a <= to <= s@.len(),
            trim_start(whole) == trim_start(s@.subrange(a as int, to as int)),
        decreases to - a,
    {
        assert(s@.subrange(a as int, to as int).skip(1) =~= s@.subrange(a + 1, to as int));
        a = a + 1;
    }
    let mut z = to;
    while z > a && white_space(s.get_char(z - 1))
        invariant
            from <= a <= z <= to <= s@.len(),
            trim(whole) == trim_end(s@.subrange(a as int, z as int)),
        decreases z,
    {
        assert(s@.subrange(a as int, z as int).drop_last() =~= s@.subrange(a as int, z - 1));
        z = z - 1;
    }
    String::from_str(s.substring_char(a, z))
}

/// Whether two strings hold the same chars.
fn same_text(a: &str, b: &str) -> (r: bool)
    ensures
        r == (a@ == b@),
{
    let n = a.unicode_len();
    if n != b.unicode_len() {
        return false;
    }
    let mut i: usize = 0;
    while i < n
        invariant
            n == a@.len() == b@.len(),
            i <= n,
            a@.subrange(0, i as int) == b@.subrange(0, i as int),
        decreases n - i,
    {
        if a.get_char(i) != b.get_char(i) {
            return false;
        }
        assert(a@.subrange(0, i + 1) =~= a@.subrange(0, i as int).push(a@[i as int]));
        assert(b@.subrange(0, i + 1) =~= b@.subrange(0, i as int).push(b@[i as int]));
        i = i + 1;
    }
    assert(a@ =~= a@.subrange(0, n as int));
    assert(b@ =~= b@.subrange(0, n as int));
    true
}

/// The properties after one more line of the file.
fn read_line(p: &mut PayloadProperties, line: &str)
    ensures
        final(p)@ == apply_line(old(p)@, line@),
{
    let n = line.unicode_len();
    let mut i: usize = 0;
    while i < n && line.get_char(i) != '='
        invariant
            n == line@.len(),
            i <= n,
            find_eq(line@, 0) == find_eq(line@, i as int),
        decreases n - i,
    {
        i = i + 1;
    }
    if i == n {
        return;
    }
    let key = trimmed(line, 0, i);
    let value = trimmed(line, i + 1, n);
    let k = key.as_str();
    if same_text(k, "FILE_HASH") {
        p.file_hash = Some(value);
    } else if same_text(k, "FILE_SIZE") {
        if let Some(v) = parse_u64(value.as_str()) {
            p.file_size = Some(v);
        }
    } else if same_text(k, "METADATA_HASH") {
        p.metadata_hash = Some(value);
    } else if same_text(k, "METADATA_SIZE") {
        if let Some(v) = parse_u64(value.as_str()) {
            p.metadata_size = Some(v);
        }
    }
}

pub open spec fn line_views(lines: Seq<String>) -> Seq<Seq<char>> {
    lines.map_values(|l: String| l@)
}

/// Reads the lines of a properties file: each line `KEY=VALUE` with one of
/// the keys FILE_HASH, FILE_SIZE, METADATA_HASH and METADATA_SIZE sets that
/// field (the sizes as unsigned integers); each field holds the value of the
/// last well-formed line with its key.  Other lines, and size lines whose
/// value is not an unsigned integer, are ignored.
pub fn parse_properties(lines: &Vec<String>) -> (r: PayloadProperties)
    ensures
        r@ == properties_of(line_views(lines@)),
{
    let mut p = PayloadProperties {
        file_hash: None,
        file_size: None,
        metadata_hash: None,
        metadata_size: None,
    };
    let mut i: usize = 0;
    while i < lines.len()
        invariant
            i <= lines@.len(),
            p@ == properties_of(line_views(lines@.subrange(0, i as int))),
        decreases lines@.len() - i,
    {
        proof {
            assert(line_views(lines@.subrange(0, i + 1)).drop_last() =~= line_views(lines@.subrange(0, i as int)));
        }
        read_line(&mut p, lines[i].as_str());
        i = i + 1;
    }
    proof {
        assert(lines@.subrange(0, i as int) =~= lines@);
    }
    p
}

} // verus!
