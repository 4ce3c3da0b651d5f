use vstd::prelude::*;

use crate::text::text_eq;

verus! {

/// Which loop a node of the bot runs.
#[derive(Debug, Clone, Copy, PartialEq, Eq, Structural)]
pub enum BotRole {
    Radar,
    Executor,
}

/// What `str::to_lowercase` returns for a string (Unicode lowercase mapping).
pub uninterp spec fn spec_to_lowercase(s: Seq<char>) -> Seq<char>;

/// Calls `str::to_lowercase`. Trusted: the result's characters are the
/// Unicode lowercase mapping of the argument's, which the contract names by
/// `spec_to_lowercase` and does not spell out.
#[verifier::external_body]
fn lowercase(s: &str) -> (res: String)
    ensures
        res@ == spec_to_lowercase(s@),
{
    s.to_lowercase()
}

/// The role that an already lowercased name selects: the radar for
/// `radar` and for the Tokyo region, the executor for everything else
/// (including `executor`, the Dublin region and the empty name).
pub open spec fn role_for_name(name: Seq<char>) -> BotRole {
    if name == "radar"@ || name == "ap-northeast-1"@ {
        BotRole::Radar
    } else {
        BotRole::Executor
    }
}

/// The raw text a node's role is read from: `BOT_ROLE` when it is set,
/// else `AWS_REGION`, else the empty text.
pub open spec fn role_source(bot_role: Option<Seq<char>>, aws_region: Option<Seq<char>>) -> Seq<char> {
    match bot_role {
        Some(r) => r,
        None => match aws_region {
            Some(a) => a,
            None => Seq::empty(),
        },
    }
}

pub open spec fn opt_view(o: Option<&str>) -> Option<Seq<char>> {
    match o {
        Some(s) => Some(s@),
        None => None,
    }
}

impl BotRole {
    /// The role for a name that is already in lower case.
    pub fn from_lowercase_name(name: &str) -> (r: BotRole)
        ensures
            r == role_for_name(name@),
            (r == BotRole::Radar) == (name@ == "radar"@ || name@ == "ap-northeast-1"@),
    {
        if text_eq(name, "radar") || text_eq(name, "ap-northeast-1") {
            BotRole::Radar
        } else {
            BotRole::Executor
        }
    }

    /// The role for a raw role or region text, compared without regard to case.
    pub fn from_raw(raw: &str) -> (r: BotRole)
        ensures
            r == role_for_name(spec_to_lowercase(raw@)),
    {
        let lower = lowercase(raw);
        BotRole::from_lowercase_name(lower.as_str())
    }

    /// The role for the values of `BOT_ROLE` and `AWS_REGION`: the first
    /// that is set decides, and with neither set the node is an executor.
    pub fn from_env_values(bot_role: Option<&str>, aws_region: Option<&str>) -> (r: BotRole)
        ensures
            (bot_role is Some || aws_region is Some) ==> r == role_for_name(
                spec_to_lowercase(role_source(opt_view(bot_role), opt_view(aws_region))),
            ),
            (bot_role is None && aws_region is None) ==> r == BotRole::Executor,
    {
        match bot_role {
            Some(b) => {
                assert(role_source(opt_view(bot_role), opt_view(aws_region)) == b@);
                BotRole::from_raw(b)
            },
            None => match aws_region {
                Some(a) => BotRole::from_raw(a),
                None => BotRole::Executor,
            },
        }
    }
}

/// Only two names select the radar: `radar` and the Tokyo region
/// `ap-northeast-1`. Every other name, any other region included (and the
/// empty name), selects the executor.
pub proof fn lemma_radar_names(name: Seq<char>)
    ensures
        role_for_name("radar"@) == BotRole::Radar,
        role_for_name("ap-northeast-1"@) == BotRole::Radar,
        name != "radar"@ && name != "ap-northeast-1"@ ==> role_for_name(name) == BotRole::Executor,
        role_for_name("executor"@) == BotRole::Executor,
        role_for_name("eu-west-1"@) == BotRole::Executor,
        role_for_name(Seq::<char>::empty()) == BotRole::Executor,
{
    reveal_strlit("radar");
    reveal_strlit("ap-northeast-1");
    reveal_strlit("executor");
    reveal_strlit("eu-west-1");
    assert("executor"@.len() == 8);
    assert("eu-west-1"@.len() == 9);
    assert("radar"@.len() == 5);
    assert("ap-northeast-1"@.len() == 14);
}

/// The role of a node comes from `BOT_ROLE` alone whenever it is set, and
/// from `AWS_REGION` only when it is not.
pub proof fn lemma_bot_role_first(b: Seq<char>, a: Option<Seq<char>>)
    ensures
        role_source(Some(b), a) == b,
        role_source(None, Some(b)) == b,
{
}

} // verus!
