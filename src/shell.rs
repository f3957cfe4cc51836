use vstd::prelude::*;

use crate::license::{License, LicenseType, license_from_type, name_of_type, display_of};
use crate::render::{render, fill_placeholders};
use crate::text::{chars_of, string_of, slice_of, is_digit};

verus! {

/// The tools of the main menu.
#[derive(Clone, Copy, Debug, PartialEq, Eq, Structural)]
pub enum MenuChoice {
    List,
    Install,
    Quit,
}

/// An answer at the license selection prompt.
#[derive(Clone, Copy, Debug, PartialEq, Eq, Structural)]
pub enum Selection {
    /// Leave the selection without installing.
    Cancel,
    /// The license at this position of the catalogue (counted from 0).
    Pick(usize),
    /// Anything else: the prompt is asked again.
    Invalid,
}

/// The characters that trimming takes off either end of an input line:
/// those of Unicode's White_Space property.
pub open spec fn is_blank(c: char) -> bool {
    ('\t' <= c <= '\r') || c == ' ' || c == '\u{85}' || c == '\u{A0}' || c == '\u{1680}' || (
    '\u{2000}' <= c <= '\u{200A}') || c == '\u{2028}' || c == '\u{2029}' || c == '\u{202F}'
        || c == '\u{205F}' || c == '\u{3000}'
}

/// An input line without blanks at either end.
pub open spec fn trimmed(s: Seq<char>) -> Seq<char>
    decreases s.len(),
{
    if s.len() > 0 && is_blank(s[0]) {
        trimmed(s.subrange(1, s.len() as int))
    } else if s.len() > 0 && is_blank(s.last()) {
        trimmed(s.drop_last())
    } else {
        s
    }
}

fn is_blank_exec(c: char) -> (r: bool)
    ensures
        r == is_blank(c),
{
    ('\t' <= c && c <= '\r') || c == ' ' || c == '\u{85}' || c == '\u{A0}' || c == '\u{1680}'
        || ('\u{2000}' <= c && c <= '\u{200A}') || c == '\u{2028}' || c == '\u{2029}' || c
        == '\u{202F}' || c == '\u{205F}' || c == '\u{3000}'
}

/// `trimmed` on the characters of a vector.
pub fn trim_chars(v: &Vec<char>) -> (r: Vec<char>)
    ensures
        r@ == trimmed(v@),
{
    let mut i: usize = 0;
    assert(v@.subrange(0, v.len() as int) =~= v@);
    while i < v.len() && is_blank_exec(v[i])
        invariant
            i <= v.len(),
            trimmed(v@) == trimmed(v@.subrange(i as int, v.len() as int)),
        decreases v.len() - i,
    {
        assert(v@.subrange(i as int, v.len() as int).subrange(1, v.len() - i) =~= v@.subrange(
            i + 1,
            v.len() as int,
        ));
        i = i + 1;
    }
    let mut j: usize = v.len();
    while j > i && is_blank_exec(v[j - 1])
        invariant
            i <= j <= v.len(),
            i < v.len() ==> !is_blank(v@[i as int]),
            trimmed(v@) == trimmed(v@.subrange(i as int, j as int)),
        decreases j,
    {
        let ghost sub = v@.subrange(i as int, j as int);
        assert(sub[0] == v@[i as int]);
        assert(sub.last() == v@[j - 1]);
        assert(sub.drop_last() =~= v@.subrange(i as int, j - 1));
        j = j - 1;
    }
    proof {
        let sub = v@.subrange(i as int, j as int);
        if sub.len() > 0 {
            assert(sub[0] == v@[i as int]);
            assert(sub.last() == v@[j - 1]);
        }
    }
    slice_of(v, i, j)
}

/// The tool that a trimmed input line asks for at the main menu.
pub open spec fn menu_choice_of(t: Seq<char>) -> Option<MenuChoice> {
    if t == seq!['1'] {
        Some(MenuChoice::List)
    } else if t == seq!['2'] {
        Some(MenuChoice::Install)
    } else if t == seq!['3'] {
        Some(MenuChoice::Quit)
    } else {
        Option::None
    }
}

/// Reads an input line at the main menu: `1`, `2` or `3`, with blanks
/// around; anything else is refused.
pub fn parse_menu_choice(line: &str) -> (r: Option<MenuChoice>)
    ensures
        r == menu_choice_of(trimmed(line@)),
        r is Some <==> (trimmed(line@) == seq!['1'] || trimmed(line@) == seq!['2']
            || trimmed(line@) == seq!['3']),
{
    let t = trim_chars(&chars_of(line));
    if t.len() != 1 {
        assert(t@ != seq!['1'] && t@ != seq!['2'] && t@ != seq!['3']);
        return Option::None;
    }
    let c = t[0];
    if c == '1' {
        assert(t@ =~= seq!['1']);
        Some(MenuChoice::List)
    } else if c == '2' {
        assert(t@ =~= seq!['2']);
        Some(MenuChoice::Install)
    } else if c == '3' {
        assert(t@ =~= seq!['3']);
        Some(MenuChoice::Quit)
    } else {
        assert(t@ != seq!['1'] && t@ != seq!['2'] && t@ != seq!['3']);
        Option::None
    }
}

/// The number that a string of decimal digits writes.
pub open spec fn digits_value(s: Seq<char>) -> int
    decreases s.len(),
{
    if s.len() == 0 {
        0
    } else {
        digits_value(s.drop_last()) * 10 + (s.last() as int - '0' as int)
    }
}

/// A number as an unsigned integer is read: without its `+` sign, if any.
pub open spec fn unsigned_body(t: Seq<char>) -> Seq<char> {
    if t.len() > 0 && t[0] == '+' {
        t.subrange(1, t.len() as int)
    } else {
        t
    }
}

/// What a trimmed input line at the selection prompt asks for, with `count`
/// licenses offered: `q` (or `Q`) cancels; a number from 1 to `count` picks
/// that license; anything else is invalid.
pub open spec fn selection_of(t: Seq<char>, count: int) -> Selection {
    let b = unsigned_body(t);
    if t == seq!['q'] || t == seq!['Q'] {
        Selection::Cancel
    } else if b.len() > 0 && (forall|k: int| 0 <= k < b.len() ==> is_digit(b[k])) && 1
        <= digits_value(b) <= count {
        Selection::Pick((digits_value(b) - 1) as usize)
    } else {
        Selection::Invalid
    }
}

/// Reads an input line at the selection prompt.
pub fn parse_selection(line: &str, count: usize) -> (r: Selection)
    ensures
        r == selection_of(trimmed(line@), count as int),
{
    let t = trim_chars(&chars_of(line));
    if t.len() == 1 && (t[0] == 'q' || t[0] == 'Q') {
        assert(t@ =~= seq!['q'] || t@ =~= seq!['Q']);
        return Selection::Cancel;
    }
    assert(t@ != seq!['q'] && t@ != seq!['Q']);
    let ghost body = unsigned_body(t@);
    let b: usize = if t.len() > 0 && t[0] == '+' {
        1
    } else {
        0
    };
    assert(body =~= t@.subrange(b as int, t.len() as int));
    if b >= t.len() {
        return Selection::Invalid;
    }
    let mut acc: u128 = 0;
    let mut big = false;
    let mut k: usize = b;
    assert(t@.subrange(b as int, b as int) =~= Seq::<char>::empty());
    while k < t.len()
        invariant
            b <= k <= t.len(),
            t@ == trimmed(line@),
            t@ != seq!['q'] && t@ != seq!['Q'],
            body == unsigned_body(t@),
            body =~= t@.subrange(b as int, t.len() as int),
            forall|m: int| b <= m < k ==> is_digit(t@[m]),
            !big ==> acc == digits_value(t@.subrange(b as int, k as int)),
            !big ==> acc <= count,
            big ==> digits_value(t@.subrange(b as int, k as int)) > count,
            digits_value(t@.subrange(b as int, k as int)) >= 0,
        decreases t.len() - k,
    {
        let c = t[k];
        if !('0' <= c && c <= '9') {
            assert(body[k - b] == t@[k as int]);
            assert(!is_digit(body[k - b]));
            return Selection::Invalid;
        }
        let ghost prev = t@.subrange(b as int, k as int);
        assert(t@.subrange(b as int, k + 1).drop_last() =~= prev);
        assert(digits_value(t@.subrange(b as int, k + 1)) == digits_value(prev) * 10 + (c as int
            - '0' as int));
        if !big {
            acc = acc * 10 + ((c as u32) - ('0' as u32)) as u128;
            if acc > count as u128 {
                big = true;
            }
        }
        k = k + 1;
    }
    assert(t@.subrange(b as int, t.len() as int) =~= body);
    if big || acc == 0 {
        Selection::Invalid
    } else {
        Selection::Pick((acc - 1) as usize)
    }
}

/// The name to put in a license, from the line the user typed: the line
/// without surrounding blanks, or `Unknown` where that leaves nothing.
pub fn user_name_from_line(line: &str) -> (r: String)
    ensures
        trimmed(line@).len() == 0 ==> r@ == "Unknown"@,
        trimmed(line@).len() > 0 ==> r@ == trimmed(line@),
{
    let t = trim_chars(&chars_of(line));
    if t.len() == 0 {
        String::from_str("Unknown")
    } else {
        string_of(&t)
    }
}

/// The tag shown for the local license: `??` for an unknown one, `NA` where
/// there is none, `OK` otherwise.
pub fn status_tag(t: LicenseType) -> (r: String)
    ensures
        t == LicenseType::Unknown ==> r@ == "??"@,
        t == LicenseType::NoLicense ==> r@ == "NA"@,
        t != LicenseType::Unknown && t != LicenseType::NoLicense ==> r@ == "OK"@,
{
    match t {
        LicenseType::Unknown => String::from_str("??"),
        LicenseType::NoLicense => String::from_str("NA"),
        _ => String::from_str("OK"),
    }
}

/// The line shown for the local license: that of the first catalogue entry
/// named as the kind `t`, or `Unknown/None - Unknown/None (no file)`.
pub fn local_license_display(t: LicenseType, licenses: &Vec<License>) -> (r: String)
    ensures
        (exists|i: int|
            0 <= i < licenses.len() && name_of_type(t) == Some(licenses@[i].name@)) ==> (exists|
            i: int,
        |
            0 <= i < licenses.len() && name_of_type(t) == Some(licenses@[i].name@) && (forall|
                j: int,
            |
                0 <= j < i ==> name_of_type(t) != Some(licenses@[j].name@)) && r@
                == display_of(licenses@[i].name@, licenses@[i].desc@, licenses@[i].content is Some)),
        !(exists|i: int|
            0 <= i < licenses.len() && name_of_type(t) == Some(licenses@[i].name@)) ==> r@
            == "Unknown/None - Unknown/None (no file)"@,
{
    match license_from_type(t, licenses) {
        Some(l) => l.display(),
        Option::None => {
            let l = License::new(
                String::from_str("Unknown/None"),
                String::from_str("Unknown/None"),
                Option::None,
            );
            let r = l.display();
            proof {
                reveal_strlit("Unknown/None");
                reveal_strlit(" - ");
                reveal_strlit(" (no file)");
                reveal_strlit("Unknown/None - Unknown/None (no file)");
                assert(r@ =~= "Unknown/None - Unknown/None (no file)"@);
            }
            r
        },
    }
}

/// The text to install for a license: its template with the placeholders
/// filled, or none where it has no template.
pub fn install_text(l: &License, user: &str, year: &str) -> (r: Option<String>)
    ensures
        l.content is None ==> r is None,
        l.content matches Some(c) ==> r is Some && r.unwrap()@ == render(c@, user@, year@),
{
    match &l.content {
        Some(c) => Some(fill_placeholders(c.as_str(), user, year)),
        Option::None => Option::None,
    }
}

} // verus!
