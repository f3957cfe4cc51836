use vstd::prelude::*;

use crate::license::{License, LicenseType, type_of_name, license_name_to_type};
use crate::render::{render, year_token, user_token, render_without_placeholders_is_identity};
use crate::text::{
    chars_of, string_of, same_chars, two_lines_of, first_line, second_line, line_end,
    occurs_at, contains, lemma_line_end_bounds, lemma_two_lines_agree, lemma_replace_keeps_prefix,
    replace_all,
};

verus! {

/// Whether two texts begin with the same two lines.
pub open spec fn same_head(a: Seq<char>, b: Seq<char>) -> bool {
    first_line(a) == first_line(b) && second_line(a) == second_line(b)
}

/// The kind of the first license of `cat`, from position `i` on, whose
/// template begins with the same two lines as `text`; `Unknown` where none
/// does.
pub open spec fn classify_from(text: Seq<char>, cat: Seq<License>, i: int) -> LicenseType
    decreases cat.len() - i,
{
    if i < 0 || i >= cat.len() {
        LicenseType::Unknown
    } else if cat[i].content is Some && same_head(cat[i].content.unwrap()@, text) {
        type_of_name(cat[i].name@)
    } else {
        classify_from(text, cat, i + 1)
    }
}

/// The first two lines of `s`: the text before the first line break, and the
/// text between the first and the second (empty where there is no break).
pub fn first_two_lines(s: &str) -> (r: Vec<String>)
    ensures
        r.len() == 2,
        r[0]@ == first_line(s@),
        r[1]@ == second_line(s@),
{
    let v = chars_of(s);
    let (a, b) = two_lines_of(&v);
    let mut r: Vec<String> = Vec::new();
    r.push(string_of(&a));
    r.push(string_of(&b));
    r
}

/// The kind of a local license file with the text `text`: that of the first
/// catalogue entry whose template begins with the same two lines, or
/// `Unknown`.
pub fn classify_text(text: &str, licenses: &Vec<License>) -> (r: LicenseType)
    ensures
        r == classify_from(text@, licenses@, 0),
{
    let tv = chars_of(text);
    let (t0, t1) = two_lines_of(&tv);
    let mut i: usize = 0;
    while i < licenses.len()
        invariant
            i <= licenses.len(),
            t0@ == first_line(text@),
            t1@ == second_line(text@),
            classify_from(text@, licenses@, 0) == classify_from(text@, licenses@, i as int),
        decreases licenses.len() - i,
    {
        let l = &licenses[i];
        match &l.content {
            Some(c) => {
                let cv = chars_of(c.as_str());
                let (c0, c1) = two_lines_of(&cv);
                if same_chars(&c0, &t0) && same_chars(&c1, &t1) {
                    return license_name_to_type(l.name.as_str());
                }
            },
            Option::None => {},
        }
        i = i + 1;
    }
    LicenseType::Unknown
}

/// The kind of the local license: `NoLicense` where there is no local file,
/// else the kind that `classify_text` gives its text.
pub fn check_current_license(local: Option<&str>, licenses: &Vec<License>) -> (r: LicenseType)
    ensures
        local is None ==> r == LicenseType::NoLicense,
        local matches Some(t) ==> r == classify_from(t@, licenses@, 0),
{
    match local {
        Some(t) => classify_text(t, licenses),
        Option::None => LicenseType::NoLicense,
    }
}

/// Which local file holds the license: `LICENSE` where it exists, else
/// `LICENSE.txt` where that exists, else none.
pub fn local_license_file(license_exists: bool, license_txt_exists: bool) -> (r: Option<String>)
    ensures
        license_exists ==> r is Some && r.unwrap()@ == "LICENSE"@,
        !license_exists && license_txt_exists ==> r is Some && r.unwrap()@ == "LICENSE.txt"@,
        !license_exists && !license_txt_exists ==> r is None,
{
    if license_exists {
        Some(String::from_str("LICENSE"))
    } else if license_txt_exists {
        Some(String::from_str("LICENSE.txt"))
    } else {
        Option::None
    }
}

/// In a text `s` that agrees with `c` up to `k`, no occurrence of a pattern
/// without line breaks begins before `k`, where neither of `c`'s first two
/// lines holds the pattern and `k` ends `c`'s second line: just after its
/// line break, or at the end of a text `s` equal in length to `c` that has
/// no second line break.
proof fn lemma_head_free(c: Seq<char>, s: Seq<char>, k: int, pat: Seq<char>)
    requires
        pat.len() > 0,
        forall|q: int| 0 <= q < pat.len() ==> pat[q] != '\n',
        !contains(first_line(c), pat),
        !contains(second_line(c), pat),
        0 <= k <= c.len(),
        k <= s.len(),
        s.subrange(0, k) == c.subrange(0, k),
        (line_end(c, 0) < c.len() && line_end(c, line_end(c, 0) + 1) < c.len() && k == line_end(
            c,
            line_end(c, 0) + 1,
        ) + 1) || (k == c.len() && s.len() == c.len() && (line_end(c, 0) >= c.len() || line_end(
            c,
            line_end(c, 0) + 1,
        ) >= c.len())),
    ensures
        forall|j: int| 0 <= j < k ==> !occurs_at(s, j, pat),
{
    let e0 = line_end(c, 0);
    lemma_line_end_bounds(c, 0);
    let e1 = if e0 < c.len() {
        line_end(c, e0 + 1)
    } else {
        c.len() as int
    };
    if e0 < c.len() {
        lemma_line_end_bounds(c, e0 + 1);
    }
    let pl = pat.len() as int;
    assert forall|q: int| 0 <= q < k implies s[q] == c[q] by {
        assert(s[q] == s.subrange(0, k)[q]);
        assert(c[q] == c.subrange(0, k)[q]);
    }
    assert forall|j: int| 0 <= j < k implies !occurs_at(s, j, pat) by {
        if occurs_at(s, j, pat) {
            if j + pl <= e0 {
                assert(first_line(c).subrange(j, j + pl) =~= s.subrange(j, j + pl));
                assert(occurs_at(first_line(c), j, pat));
            } else if j <= e0 {
                assert(s.subrange(j, j + pl)[e0 - j] == s[e0]);
            } else if j + pl <= e1 {
                assert(second_line(c).subrange(j - e0 - 1, j - e0 - 1 + pl) =~= s.subrange(
                    j,
                    j + pl,
                ));
                assert(occurs_at(second_line(c), j - e0 - 1, pat));
            } else {
                assert(s.subrange(j, j + pl)[e1 - j] == s[e1]);
            }
        }
    }
}

/// Rendering keeps the first two lines of a template where neither holds a
/// placeholder.
pub proof fn lemma_render_keeps_head(c: Seq<char>, user: Seq<char>, year: Seq<char>)
    requires
        !contains(first_line(c), year_token()),
        !contains(second_line(c), year_token()),
        !contains(first_line(c), user_token()),
        !contains(second_line(c), user_token()),
    ensures
        same_head(render(c, user, year), c),
{
    let e0 = line_end(c, 0);
    lemma_line_end_bounds(c, 0);
    if e0 < c.len() {
        lemma_line_end_bounds(c, e0 + 1);
    }
    if e0 < c.len() && line_end(c, e0 + 1) < c.len() {
        let k = line_end(c, e0 + 1) + 1;
        let with_year = replace_all(c, year_token(), year);
        lemma_head_free(c, c, k, year_token());
        lemma_replace_keeps_prefix(c, year_token(), year, k);
        lemma_head_free(c, with_year, k, user_token());
        lemma_replace_keeps_prefix(with_year, user_token(), user, k);
        lemma_two_lines_agree(c, render(c, user, year), k);
    } else {
        let n = c.len() as int;
        lemma_head_free(c, c, n, year_token());
        lemma_head_free(c, c, n, user_token());
        assert forall|i: int| !occurs_at(c, i, year_token()) by {
            if 0 <= i < n {
            }
        }
        assert forall|i: int| !occurs_at(c, i, user_token()) by {
            if 0 <= i < n {
            }
        }
        render_without_placeholders_is_identity(c, user, year);
    }
}

proof fn lemma_classify_none_from(text: Seq<char>, cat: Seq<License>, j: int)
    requires
        0 <= j <= cat.len(),
        forall|m: int|
            0 <= m < cat.len() && cat[m].content is Some ==> !same_head(
                cat[m].content.unwrap()@,
                text,
            ),
    ensures
        classify_from(text, cat, j) == LicenseType::Unknown,
    decreases cat.len() - j,
{
    if j < cat.len() {
        lemma_classify_none_from(text, cat, j + 1);
    }
}

/// A local license file whose first two lines are those of no template in
/// the catalogue is classified `Unknown`.
pub proof fn unmatched_license_is_unknown(text: Seq<char>, cat: Seq<License>)
    requires
        forall|m: int|
            0 <= m < cat.len() && cat[m].content is Some ==> !same_head(
                cat[m].content.unwrap()@,
                text,
            ),
    ensures
        classify_from(text, cat, 0) == LicenseType::Unknown,
{
    lemma_classify_none_from(text, cat, 0);
}

proof fn lemma_classify_skips(text: Seq<char>, cat: Seq<License>, j: int, i: int)
    requires
        0 <= j <= i < cat.len(),
        cat[i].content is Some && same_head(cat[i].content.unwrap()@, text),
        forall|m: int|
            0 <= m < i && cat[m].content is Some ==> !same_head(cat[m].content.unwrap()@, text),
    ensures
        classify_from(text, cat, j) == type_of_name(cat[i].name@),
    decreases i - j,
{
    if j < i {
        lemma_classify_skips(text, cat, j + 1, i);
    }
}

/// A license installed from a catalogue entry is recognized as that entry's
/// kind, where the first two lines of its template hold no placeholder and
/// no earlier entry's template begins with the same two lines.
pub proof fn installed_license_is_recognized(
    cat: Seq<License>,
    i: int,
    user: Seq<char>,
    year: Seq<char>,
)
    requires
        0 <= i < cat.len(),
        cat[i].content is Some,
        !contains(first_line(cat[i].content.unwrap()@), year_token()),
        !contains(second_line(cat[i].content.unwrap()@), year_token()),
        !contains(first_line(cat[i].content.unwrap()@), user_token()),
        !contains(second_line(cat[i].content.unwrap()@), user_token()),
        forall|j: int|
            0 <= j < i && cat[j].content is Some ==> !same_head(
                cat[j].content.unwrap()@,
                cat[i].content.unwrap()@,
            ),
    ensures
        classify_from(render(cat[i].content.unwrap()@, user, year), cat, 0) == type_of_name(
            cat[i].name@,
        ),
{
    let c = cat[i].content.unwrap()@;
    let installed = render(c, user, year);
    lemma_render_keeps_head(c, user, year);
    lemma_classify_skips(installed, cat, 0, i);
}

} // verus!
