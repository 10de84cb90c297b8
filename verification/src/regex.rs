//! Regular expressions for scripts: every match of a pattern in a text,
//! with the groups it captured, as one flat list of strings.

use vstd::prelude::*;

verus! {

/// The groups of every match of a pattern in a text, match after match:
/// for each match the text of each group of the pattern, the whole match
/// first, and nothing for a group that took no part in the match. It is
/// `None` for a pattern that the `regex` crate does not accept.
pub uninterp spec fn regex_groups(pattern: Seq<char>, text: Seq<char>) -> Option<
    Seq<Seq<Option<Seq<char>>>>,
>;

/// The text of each group of one match.
pub open spec fn group_views(groups: Seq<Option<String>>) -> Seq<Option<Seq<char>>> {
    Seq::new(
        groups.len(),
        |i: int|
            match groups[i] {
                Some(text) => Some(text@),
                None => None,
            },
    )
}

/// The text of each group of each match.
pub open spec fn match_views(matches: Seq<Vec<Option<String>>>) -> Seq<Seq<Option<Seq<char>>>> {
    Seq::new(matches.len(), |i: int| group_views(matches[i]@))
}

/// The text of each string.
pub open spec fn text_views(texts: Seq<String>) -> Seq<Seq<char>> {
    Seq::new(texts.len(), |i: int| texts[i]@)
}

/// Compiles the pattern with `regex::Regex::new` and collects what
/// `Regex::captures_iter` yields for the text, each group of each match
/// copied out as a string. The result depends on the pattern and the text
/// alone and is named, not described.
#[verifier::external_body]
fn all_groups(pattern: &str, text: &str) -> (matches: Option<Vec<Vec<Option<String>>>>)
    ensures
        match regex_groups(pattern@, text@) {
            Some(groups) => matches is Some && match_views(matches->Some_0@) == groups,
            None => matches is None,
        },
{
    let regex = regex::Regex::new(pattern).ok()?;
    Some(
        regex
            .captures_iter(text)
            .map(|found| found.iter().map(|group| group.map(|m| m.as_str().to_owned())).collect())
            .collect(),
    )
}

/// The groups of one match from the second on that took part in it, up to
/// the group at place `upto`.
pub open spec fn taken_groups(groups: Seq<Option<Seq<char>>>, upto: int) -> Seq<Seq<char>>
    decreases upto,
{
    if upto <= 1 {
        Seq::empty()
    } else {
        let before = taken_groups(groups, upto - 1);
        match groups[upto - 1] {
            Some(text) => before.push(text),
            None => before,
        }
    }
}

/// What one match adds to the list: the whole match, or the empty string
/// if there is none, and then every further group that took part.
pub open spec fn match_strings(groups: Seq<Option<Seq<char>>>) -> Seq<Seq<char>> {
    let whole = if groups.len() > 0 && groups[0] is Some {
        groups[0]->Some_0
    } else {
        Seq::<char>::empty()
    };
    seq![whole] + taken_groups(groups, groups.len() as int)
}

/// The list for all matches: what each match adds, match after match.
pub open spec fn flattened(matches: Seq<Seq<Option<Seq<char>>>>) -> Seq<Seq<char>>
    decreases matches.len(),
{
    if matches.len() == 0 {
        Seq::empty()
    } else {
        flattened(matches.drop_last()) + match_strings(matches.last())
    }
}

/// Why a pattern could not be matched.
#[derive(Debug, Clone, Copy, PartialEq, Eq, Structural)]
pub enum RegexError {
    /// The pattern is not a regular expression that can be compiled.
    InvalidPattern,
}

/// A regular expression that a script made, kept as its pattern.
pub struct LuaRegex {
    pub pattern: String,
}

/// Writes the groups of all matches as one flat list of strings.
pub fn flatten_captures(matches: Vec<Vec<Option<String>>>) -> (list: Vec<String>)
    ensures
        text_views(list@) == flattened(match_views(matches@)),
{
    let mut list: Vec<String> = Vec::new();
    let mut m: usize = 0;
    assert(match_views(matches@).take(0) =~= Seq::<Seq<Option<Seq<char>>>>::empty());
    assert(text_views(list@) =~= Seq::<Seq<char>>::empty());
    while m < matches.len()
        invariant
            m <= matches@.len(),
            text_views(list@) == flattened(match_views(matches@).take(m as int)),
        decreases matches@.len() - m,
    {
        let groups = &matches[m];
        let ghost views = group_views(groups@);
        let ghost before = text_views(list@);
        let whole = if groups.len() > 0 {
            match &groups[0] {
                Some(text) => text.clone(),
                None => String::new(),
            }
        } else {
            String::new()
        };
        list.push(whole);
        assert(text_views(list@) =~= before + seq![whole@] + taken_groups(views, 1));
        let mut g: usize = 1;
        while g < groups.len()
            invariant
                1 <= g,
                g == 1 || g <= groups@.len(),
                views == group_views(groups@),
                text_views(list@) == before + seq![whole@] + taken_groups(views, g as int),
            decreases groups@.len() - g,
        {
            let ghost so_far = text_views(list@);
            match &groups[g] {
                Some(text) => {
                    list.push(text.clone());
                    assert(text_views(list@) =~= so_far.push(text@));
                },
                None => {},
            }
            assert(text_views(list@) =~= before + seq![whole@] + taken_groups(views, g + 1));
            g += 1;
        }
        proof {
            let all = match_views(matches@);
            assert(all.take(m + 1).drop_last() =~= all.take(m as int));
            assert(all.take(m + 1).last() == views);
            if groups.len() == 0 {
                assert(taken_groups(views, 0) =~= taken_groups(views, 1));
            } else {
                assert(views[0] == match groups@[0] {
                    Some(text) => Some(text@),
                    None => None::<Seq<char>>,
                });
            }
            let rest = taken_groups(views, views.len() as int);
            assert(views.len() == groups@.len());
            assert(taken_groups(views, g as int) =~= rest);
            assert(match_strings(views) =~= seq![whole@] + rest);
            assert(before + seq![whole@] + rest =~= before + (seq![whole@] + rest));
            assert(text_views(list@) =~= before + match_strings(views));
        }
        m += 1;
    }
    assert(match_views(matches@).take(m as int) =~= match_views(matches@));
    list
}

/// What matching a pattern against a text answers.
pub open spec fn matched(pattern: Seq<char>, text: Seq<char>) -> Result<Seq<Seq<char>>, RegexError> {
    match regex_groups(pattern, text) {
        Some(groups) => Ok(flattened(groups)),
        None => Err(RegexError::InvalidPattern),
    }
}

/// Finds every match of the pattern in `string` and lists, match after
/// match, the whole match and the groups that took part in it.
pub fn lua_regex_match(this: &LuaRegex, string: &str) -> (res: Result<Vec<String>, RegexError>)
    ensures
        match matched(this.pattern@, string@) {
            Ok(list) => res is Ok && text_views(res->Ok_0@) == list,
            Err(e) => res == Err::<Vec<String>, RegexError>(e),
        },
{
    match all_groups(this.pattern.as_str(), string) {
        Some(matches) => Ok(flatten_captures(matches)),
        None => Err(RegexError::InvalidPattern),
    }
}

} // verus!
