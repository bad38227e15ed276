//! Who the user is, in words for the model.

use vstd::prelude::*;

use crate::attachments::{join_lines, join_with_newlines};

verus! {

/// What the user told of themselves.
#[derive(Debug)]
pub struct UserProfile {
    pub display_name: String,
    pub language: String,
    pub timezone: String,
    pub city: Option<String>,
    pub country: Option<String>,
    pub occupation: Option<String>,
    pub communication_style: Option<String>,
    /// Further things, in the order in which they are to be told.
    pub custom: Vec<(String, String)>,
}

/// A line of the profile.
pub open spec fn profile_line(label: Seq<char>, value: Seq<char>) -> Seq<char> {
    "- "@ + label + ": "@ + value
}

/// A line for a thing that the user may not have told.
pub open spec fn optional_line(label: Seq<char>, value: Option<String>) -> Seq<Seq<char>> {
    match value {
        Some(v) => seq![profile_line(label, v@)],
        None => Seq::empty(),
    }
}

/// The lines for the first `n` further things.
pub open spec fn custom_lines(custom: Seq<(String, String)>, n: int) -> Seq<Seq<char>>
    decreases n,
{
    if n <= 0 {
        Seq::empty()
    } else {
        custom_lines(custom, n - 1).push(profile_line(custom[n - 1].0@, custom[n - 1].1@))
    }
}

/// All lines of a profile.
pub open spec fn profile_lines(p: UserProfile) -> Seq<Seq<char>> {
    seq![
        profile_line("Display Name"@, p.display_name@),
        profile_line("Language"@, p.language@),
        profile_line("Timezone"@, p.timezone@),
    ] + optional_line("City"@, p.city) + optional_line("Country"@, p.country) + optional_line(
        "Occupation"@,
        p.occupation,
    ) + optional_line("Communication Style"@, p.communication_style) + custom_lines(
        p.custom@,
        p.custom@.len() as int,
    )
}

fn line(label: &str, value: &str) -> (r: String)
    ensures
        r@ == profile_line(label@, value@),
{
    let mut s = "- ".to_owned();
    s.append(label);
    s.append(": ");
    s.append(value);
    s
}

fn add_line(lines: &mut Vec<String>, label: &str, value: &str)
    ensures
        final(lines).deep_view() == old(lines).deep_view().push(profile_line(label@, value@)),
{
    let ghost before = lines.deep_view();
    lines.push(line(label, value));
    assert(lines.deep_view() =~= before.push(profile_line(label@, value@)));
}

fn add_optional(lines: &mut Vec<String>, label: &str, value: &Option<String>)
    ensures
        final(lines).deep_view() == old(lines).deep_view() + optional_line(label@, *value),
{
    match value {
        Some(v) => add_line(lines, label, v.as_str()),
        None => {
            assert(lines.deep_view() + Seq::<Seq<char>>::empty() =~= lines.deep_view());
        },
    }
}

/// Format a profile into a text block for the system prompt, one line for each
/// thing that the user told.
pub fn format_user_profile_context(profile: &UserProfile) -> (r: String)
    ensures
        r@ == join_lines(profile_lines(*profile)),
{
    let mut lines: Vec<String> = Vec::new();
    add_line(&mut lines, "Display Name", profile.display_name.as_str());
    add_line(&mut lines, "Language", profile.language.as_str());
    add_line(&mut lines, "Timezone", profile.timezone.as_str());
    assert(lines.deep_view() =~= seq![
        profile_line("Display Name"@, profile.display_name@),
        profile_line("Language"@, profile.language@),
        profile_line("Timezone"@, profile.timezone@),
    ]);
    add_optional(&mut lines, "City", &profile.city);
    add_optional(&mut lines, "Country", &profile.country);
    add_optional(&mut lines, "Occupation", &profile.occupation);
    add_optional(&mut lines, "Communication Style", &profile.communication_style);
    let ghost told = lines.deep_view();
    let mut i: usize = 0;
    assert(told + custom_lines(profile.custom@, 0) =~= told);
    while i < profile.custom.len()
        invariant
            i <= profile.custom.len(),
            lines.deep_view() == told + custom_lines(profile.custom@, i as int),
        decreases profile.custom.len() - i,
    {
        add_line(&mut lines, profile.custom[i].0.as_str(), profile.custom[i].1.as_str());
        assert(lines.deep_view() =~= told + custom_lines(profile.custom@, i + 1));
        i = i + 1;
    }
    join_with_newlines(&lines)
}

/// The profile tells the name, the language and the time zone first.
pub proof fn profiles_begin_with_the_name(p: UserProfile)
    ensures
        profile_lines(p).len() >= 3 + p.custom@.len(),
        profile_lines(p)[0] == "- "@ + "Display Name"@ + ": "@ + p.display_name@,
        profile_lines(p)[1] == "- "@ + "Language"@ + ": "@ + p.language@,
        profile_lines(p)[2] == "- "@ + "Timezone"@ + ": "@ + p.timezone@,
{
    lemma_custom_lines(p.custom@, p.custom@.len() as int);
}

proof fn lemma_custom_lines(custom: Seq<(String, String)>, n: int)
    requires
        0 <= n <= custom.len(),
    ensures
        custom_lines(custom, n).len() == n,
        forall|i: int|
            0 <= i < n ==> #[trigger] custom_lines(custom, n)[i] == profile_line(
                custom[i].0@,
                custom[i].1@,
            ),
    decreases n,
{
    if n > 0 {
        lemma_custom_lines(custom, n - 1);
    }
}

/// What the user left out is not told; what they told is, under its label.
pub proof fn only_what_is_known_is_told(p: UserProfile)
    ensures
        profile_lines(p).len() == 3 + (if p.city is Some {
            1int
        } else {
            0
        }) + (if p.country is Some {
            1int
        } else {
            0
        }) + (if p.occupation is Some {
            1int
        } else {
            0
        }) + (if p.communication_style is Some {
            1int
        } else {
            0
        }) + p.custom@.len(),
        p.city matches Some(v) ==> profile_lines(p)[3] == "- "@ + "City"@ + ": "@ + v@,
        p.country matches Some(v) ==> profile_lines(p).contains(
            "- "@ + "Country"@ + ": "@ + v@,
        ),
        p.occupation matches Some(v) ==> profile_lines(p).contains(
            "- "@ + "Occupation"@ + ": "@ + v@,
        ),
        p.communication_style matches Some(v) ==> profile_lines(p).contains(
            "- "@ + "Communication Style"@ + ": "@ + v@,
        ),
{
    lemma_custom_lines(p.custom@, p.custom@.len() as int);
    let lines = profile_lines(p);
    let c0 = 3int + optional_line("City"@, p.city).len();
    let c1 = c0 + optional_line("Country"@, p.country).len();
    let c2 = c1 + optional_line("Occupation"@, p.occupation).len();
    if p.country is Some {
        assert(lines[c0] == profile_line("Country"@, p.country->0@));
    }
    if p.occupation is Some {
        assert(lines[c1] == profile_line("Occupation"@, p.occupation->0@));
    }
    if p.communication_style is Some {
        assert(lines[c2] == profile_line("Communication Style"@, p.communication_style->0@));
    }
}

/// What else the user told stands at the end, in their order.
pub proof fn further_things_are_told_last(p: UserProfile, i: int)
    requires
        0 <= i < p.custom@.len(),
    ensures
        ({
            let lines = profile_lines(p);
            lines[lines.len() - p.custom@.len() + i] == "- "@ + p.custom@[i].0@ + ": "@
                + p.custom@[i].1@
        }),
{
    lemma_custom_lines(p.custom@, p.custom@.len() as int);
}

} // verus!
