use vstd::prelude::*;

use crate::text::{chars_of, string_of, replace_all, replace_all_exec, contains, occurs_at,
    lemma_replace_absent, lemma_replace_leaves_other, lemma_replace_clears_brackets, has_char};

verus! {

/// The placeholder for the year.
pub open spec fn year_token() -> Seq<char> {
    seq!['[', 'y', 'e', 'a', 'r', ']']
}

/// The placeholder for the user's name.
pub open spec fn user_token() -> Seq<char> {
    seq!['[', 'u', 's', 'e', 'r', ']']
}

/// A template with every `[year]` replaced by `year`, and then every `[user]`
/// replaced by `user`.
pub open spec fn render(template: Seq<char>, user: Seq<char>, year: Seq<char>) -> Seq<char> {
    replace_all(replace_all(template, year_token(), year), user_token(), user)
}

/// Fills the placeholders of a template: year first, then user.
pub fn fill_placeholders(template: &str, user: &str, year: &str) -> (r: String)
    ensures
        r@ == render(template@, user@, year@),
{
    let t = chars_of(template);
    let u = chars_of(user);
    let y = chars_of(year);
    let year_pat: Vec<char> = vec!['[', 'y', 'e', 'a', 'r', ']'];
    let user_pat: Vec<char> = vec!['[', 'u', 's', 'e', 'r', ']'];
    assert(year_pat@ =~= year_token());
    assert(user_pat@ =~= user_token());
    let with_year = replace_all_exec(&t, &year_pat, &y);
    let with_user = replace_all_exec(&with_year, &user_pat, &u);
    string_of(&with_user)
}

/// A template without placeholders renders to itself, whatever the user and
/// the year.
pub proof fn render_without_placeholders_is_identity(
    template: Seq<char>,
    user: Seq<char>,
    year: Seq<char>,
)
    requires
        !contains(template, year_token()),
        !contains(template, user_token()),
    ensures
        render(template, user, year) == template,
{
    lemma_replace_absent(template, year_token(), year);
    lemma_replace_absent(template, user_token(), user);
}

/// Where every `[` of the template begins a placeholder, and neither the user
/// nor the year holds a `[`, no `[year]` or `[user]` is left after rendering:
/// the rendered text holds no `[` at all.
pub proof fn render_leaves_no_placeholder(template: Seq<char>, user: Seq<char>, year: Seq<char>)
    requires
        forall|i: int|
            0 <= i < template.len() && template[i] == '[' ==> occurs_at(template, i, year_token())
                || occurs_at(template, i, user_token()),
        !has_char(user, '['),
        !has_char(year, '['),
    ensures
        !has_char(render(template, user, year), '['),
        !contains(render(template, user, year), year_token()),
        !contains(render(template, user, year), user_token()),
{
    let with_year = replace_all(template, year_token(), year);
    lemma_replace_leaves_other(template, year_token(), year, user_token());
    lemma_replace_clears_brackets(with_year, user_token(), user);
    let r = render(template, user, year);
    assert forall|i: int| !occurs_at(r, i, year_token()) by {
        if occurs_at(r, i, year_token()) {
            assert(r.subrange(i, i + 6)[0] == r[i]);
        }
    }
    assert forall|i: int| !occurs_at(r, i, user_token()) by {
        if occurs_at(r, i, user_token()) {
            assert(r.subrange(i, i + 6)[0] == r[i]);
        }
    }
}

} // verus!
