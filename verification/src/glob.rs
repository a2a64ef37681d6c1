//! Ignore patterns given directly on the command line.
//!
//! Such a pattern names what to leave out, and with a leading `!` what to
//! keep. The override rules of the `ignore` crate read patterns the other way
//! round, so each pattern has its polarity turned before it goes there.

use vstd::prelude::*;
use vstd::string::*;

verus! {

/// `glob` with its polarity turned: a leading `!` is taken away, and where
/// there is none, one is put in front.
pub open spec fn turned(glob: Seq<char>) -> Seq<char> {
    if glob.len() > 0 && glob[0] == '!' {
        glob.subrange(1, glob.len() as int)
    } else {
        seq!['!'] + glob
    }
}

/// Turns the polarity of an ignore pattern into that of an override rule.
pub fn fix_glob(glob: &str) -> (r: String)
    ensures
        r@ == turned(glob@),
{
    let n = glob.unicode_len();
    if n > 0 && glob.get_char(0) == '!' {
        String::from_str(glob.substring_char(1, n))
    } else {
        proof {
            reveal_strlit("!");
        }
        let mut text = String::from_str("!");
        text.append(glob);
        assert(text@ =~= seq!['!'] + glob@);
        text
    }
}

/// The override rules for `globs`: each pattern turned, in the order given.
pub fn override_patterns(globs: &Vec<String>) -> (r: Vec<String>)
    ensures
        r.deep_view() == globs.deep_view().map_values(|g: Seq<char>| turned(g)),
{
    let mut out: Vec<String> = Vec::new();
    let mut i: usize = 0;
    while i < globs.len()
        invariant
            i <= globs.len(),
            out.len() == i,
            forall|k: int| 0 <= k < i ==> (#[trigger] out[k])@ == turned(globs[k]@),
        decreases globs.len() - i,
    {
        out.push(fix_glob(globs[i].as_str()));
        i += 1;
    }
    assert(out.deep_view() =~= globs.deep_view().map_values(|g: Seq<char>| turned(g)));
    out
}

/// What a fresh `ignore::overrides::OverrideBuilder` answers when `rule` is
/// added to it: nothing where it takes the rule, else the text of its error.
pub uninterp spec fn override_refusal(rule: Seq<char>) -> Option<Seq<char>>;

/// Adds `rule` to a fresh `ignore::overrides::OverrideBuilder`, made by
/// `OverrideBuilder::new` for the empty root, with `OverrideBuilder::add`, and
/// hands back the text of the error if there is one. The builder parses the
/// rule by itself and touches no file; whether it takes the rule, and what it
/// says if not, depends on the rule alone.
#[verifier::external_body]
fn try_override(rule: &str) -> (r: Result<(), String>)
    ensures
        override_refusal(rule@) == (match r {
            Ok(_) => None::<Seq<char>>,
            Err(text) => Some(text@),
        }),
{
    match ignore::overrides::OverrideBuilder::new("").add(rule) {
        Ok(_) => Ok(()),
        Err(error) => Err(format!("{}", error)),
    }
}

/// An ignore pattern that cannot be read as an override rule.
#[derive(Clone, Debug, PartialEq, Eq)]
pub struct PatternError {
    /// Place of the pattern among those given.
    pub index: usize,
    /// What is wrong with it.
    pub message: String,
}

/// Judges the pattern at place `index` by the answer to its rule.
pub fn judged(index: usize, answer: Result<(), String>) -> (r: Result<(), PatternError>)
    ensures
        answer is Ok ==> r is Ok,
        answer matches Err(text) ==> r matches Err(e) && e.index == index && e.message@ == text@,
{
    match answer {
        Ok(()) => Ok(()),
        Err(message) => Err(PatternError { index, message }),
    }
}

/// Every pattern of `globs` gives a rule that is taken.
pub open spec fn all_taken(globs: Seq<Seq<char>>) -> bool {
    forall|i: int| 0 <= i < globs.len() ==> override_refusal(turned(#[trigger] globs[i])) is None
}

/// Makes sure that every pattern of `globs` can be read as an override rule,
/// and names the first that cannot.
pub fn check_patterns(globs: &Vec<String>) -> (r: Result<(), PatternError>)
    ensures
        r is Ok <==> all_taken(globs.deep_view()),
        r matches Err(e) ==> e.index < globs.len() && all_taken(
            globs.deep_view().take(e.index as int),
        ) && override_refusal(turned(globs[e.index as int]@)) == Some(e.message@),
{
    let mut i: usize = 0;
    while i < globs.len()
        invariant
            i <= globs.len(),
            all_taken(globs.deep_view().take(i as int)),
        decreases globs.len() - i,
    {
        let rule = fix_glob(globs[i].as_str());
        match judged(i, try_override(rule.as_str())) {
            Ok(()) => {},
            Err(e) => {
                assert(globs.deep_view()[i as int] == globs[i as int]@);
                return Err(e);
            },
        }
        proof {
            let now = globs.deep_view().take(i + 1);
            assert forall|k: int| 0 <= k < now.len() implies override_refusal(
                turned(#[trigger] now[k]),
            ) is None by {
                if k < i {
                    assert(now[k] == globs.deep_view().take(i as int)[k]);
                }
            }
        }
        i += 1;
    }
    assert(globs.deep_view().take(globs.len() as int) =~= globs.deep_view());
    Ok(())
}

/// Turning a pattern twice gives the pattern back, unless it begins with two
/// `!`, of which the second would then be taken for the polarity.
pub proof fn turning_twice_restores(glob: Seq<char>)
    requires
        !(glob.len() >= 2 && glob[0] == '!' && glob[1] == '!'),
    ensures
        turned(turned(glob)) == glob,
{
    if glob.len() > 0 && glob[0] == '!' {
        let rest = glob.subrange(1, glob.len() as int);
        assert(seq!['!'] + rest =~= glob);
    } else {
        assert((seq!['!'] + glob).subrange(1, glob.len() as int + 1) =~= glob);
    }
}

/// A pattern without a leading `!` becomes a rule that begins with `!` and
/// goes on with the pattern; a pattern with one becomes a rule that is the
/// pattern without it.
pub proof fn turning_flips_polarity(glob: Seq<char>)
    ensures
        glob.len() > 0 && glob[0] == '!' ==> seq!['!'] + turned(glob) == glob,
        !(glob.len() > 0 && glob[0] == '!') ==> turned(glob).len() == glob.len() + 1 && turned(
            glob,
        )[0] == '!' && turned(glob).subrange(1, glob.len() as int + 1) == glob,
{
    if glob.len() > 0 && glob[0] == '!' {
        assert(seq!['!'] + turned(glob) =~= glob);
    } else {
        assert(turned(glob).subrange(1, glob.len() as int + 1) =~= glob);
    }
}

} // verus!
