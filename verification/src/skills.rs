//! Skills as the chat uses them: listing them, finding one by name and the
//! text that `/skill <name>` inserts into the composer. Loading skills from
//! disk is left to the caller.
use vstd::prelude::*;
use crate::text::{chars_of, eq_chars, push_all, string_of, trim, trim_chars};
use crate::toast::{Notice, ToastVariant};

verus! {

broadcast use vstd::seq_lib::group_seq_properties;

/// A loaded skill.
pub struct SkillEntry {
    pub name: String,
    pub description: String,
    pub content: String,
    pub enabled: bool,
}

/// A skill as plain values: name, description, content, enabled.
pub type SkillView = (Seq<char>, Seq<char>, Seq<char>, bool);

impl View for SkillEntry {
    type V = SkillView;

    open spec fn view(&self) -> SkillView {
        (self.name@, self.description@, self.content@, self.enabled)
    }
}

pub open spec fn skills_view(s: Seq<SkillEntry>) -> Seq<SkillView> {
    s.map_values(|e: SkillEntry| e@)
}

/// The line listing a skill: two spaces, its name, a dash and its description.
pub open spec fn skill_line(s: SkillView) -> Seq<char> {
    "  "@ + s.0 + " — "@ + s.1
}

/// The lines of the enabled skills, in order.
pub open spec fn skill_lines(s: Seq<SkillView>) -> Seq<Seq<char>>
    decreases s.len(),
{
    if s.len() == 0 {
        Seq::empty()
    } else {
        let prev = skill_lines(s.drop_last());
        if s.last().3 {
            prev.push(skill_line(s.last()))
        } else {
            prev
        }
    }
}

/// `lines` joined with newlines.
pub open spec fn joined(lines: Seq<Seq<char>>) -> Seq<char>
    decreases lines.len(),
{
    if lines.len() == 0 {
        Seq::empty()
    } else if lines.len() == 1 {
        lines[0]
    } else {
        joined(lines.drop_last()) + "\n"@ + lines.last()
    }
}

/// `/skill`: with no skills loaded, where to put them (for five seconds);
/// otherwise the enabled skills, one per line (for six seconds).
pub fn skills_notice(skills: &Vec<SkillEntry>) -> (r: Notice)
    ensures
        r.variant == ToastVariant::Info,
        skills@.len() == 0 ==> r.message@ == "no skills loaded — add .md files to ~/.config/rustcode/skills/"@
            && r.ttl_ms == 5000,
        skills@.len() > 0 ==> r.message@ == "skills:\n"@ + joined(skill_lines(skills_view(skills@)))
            && r.ttl_ms == 6000,
{
    if skills.len() == 0 {
        return Notice {
            variant: ToastVariant::Info,
            message: "no skills loaded — add .md files to ~/.config/rustcode/skills/".to_owned(),
            ttl_ms: 5000,
        };
    }
    let mut acc: Vec<char> = Vec::new();
    let mut count: usize = 0;
    let mut i: usize = 0;
    while i < skills.len()
        invariant
            i <= skills.len(),
            count == skill_lines(skills_view(skills@).take(i as int)).len(),
            count <= i,
            acc@ == joined(skill_lines(skills_view(skills@).take(i as int))),
        decreases skills.len() - i,
    {
        let s = &skills[i];
        let ghost prev = skill_lines(skills_view(skills@).take(i as int));
        proof {
            let t = skills_view(skills@).take(i as int + 1);
            assert(t.drop_last() =~= skills_view(skills@).take(i as int));
            assert(t.last() == s@);
        }
        if s.enabled {
            let ghost before = acc@;
            if count > 0 {
                push_all(&mut acc, &chars_of("\n"));
            }
            push_all(&mut acc, &chars_of("  "));
            push_all(&mut acc, &chars_of(s.name.as_str()));
            push_all(&mut acc, &chars_of(" — "));
            push_all(&mut acc, &chars_of(s.description.as_str()));
            proof {
                let np = prev.push(skill_line(s@));
                assert(np.drop_last() =~= prev);
                if count > 0 {
                    assert(acc@ =~= before + "\n"@ + skill_line(s@));
                } else {
                    assert(acc@ =~= skill_line(s@));
                }
            }
            count = count + 1;
        }
        i = i + 1;
    }
    proof {
        assert(skills_view(skills@).take(skills.len() as int) =~= skills_view(skills@));
    }
    let mut msg = chars_of("skills:\n");
    push_all(&mut msg, &acc);
    Notice { variant: ToastVariant::Info, message: string_of(msg.as_slice()), ttl_ms: 6000 }
}

/// The first enabled skill called `name`.
pub open spec fn skill_index(s: Seq<SkillView>, name: Seq<char>) -> Option<nat>
    decreases s.len(),
{
    if s.len() == 0 {
        None
    } else if s[0].3 && s[0].0 == name {
        Some(0)
    } else {
        match skill_index(s.drop_first(), name) {
            Some(i) => Some(i + 1),
            None => None,
        }
    }
}

pub fn find_skill(skills: &Vec<SkillEntry>, name: &str) -> (r: Option<usize>)
    ensures
        r is None <==> skill_index(skills_view(skills@), name@) is None,
        r matches Some(i) ==> skill_index(skills_view(skills@), name@) == Some(i as nat),
{
    let n = chars_of(name);
    let mut i: usize = 0;
    proof {
        assert(skills_view(skills@).skip(0) =~= skills_view(skills@));
    }
    while i < skills.len()
        invariant
            i <= skills.len(),
            n@ == name@,
            skill_index(skills_view(skills@), name@) == match skill_index(skills_view(skills@).skip(i as int), name@) {
                Some(k) => Some((k + i) as nat),
                None => None::<nat>,
            },
        decreases skills.len() - i,
    {
        let ghost t = skills_view(skills@).skip(i as int);
        proof {
            assert(t[0] == skills@[i as int]@);
            assert(t.drop_first() =~= skills_view(skills@).skip(i as int + 1));
        }
        if skills[i].enabled && eq_chars(&chars_of(skills[i].name.as_str()), &n) {
            return Some(i);
        }
        i = i + 1;
    }
    None
}

/// What `/skill <name>` inserts for `skill`: a `[skill: name]` line, the
/// skill's trimmed content and a blank line.
pub fn skill_injection(skill: &SkillEntry) -> (r: String)
    ensures
        r@ == "[skill: "@ + skill.name@ + "]\n"@ + trim(skill.content@) + "\n\n"@,
{
    let mut v = chars_of("[skill: ");
    push_all(&mut v, &chars_of(skill.name.as_str()));
    push_all(&mut v, &chars_of("]\n"));
    push_all(&mut v, &trim_chars(&chars_of(skill.content.as_str())));
    push_all(&mut v, &chars_of("\n\n"));
    string_of(v.as_slice())
}

/// The notice of `/skill <name>`: the skill inserted, or none found.
pub fn skill_notice(found: Option<&SkillEntry>, name: &str) -> (r: Notice)
    ensures
        r.ttl_ms == 3000,
        match found {
            Some(s) => r.variant == ToastVariant::Success && r.message@ == "injected skill: "@ + s.name@,
            None => r.variant == ToastVariant::Warning && r.message@ == "skill not found: "@ + name@,
        },
{
    match found {
        Some(s) => Notice {
            variant: ToastVariant::Success,
            message: crate::text::concat2("injected skill: ", s.name.as_str()),
            ttl_ms: 3000,
        },
        None => Notice {
            variant: ToastVariant::Warning,
            message: crate::text::concat2("skill not found: ", name),
            ttl_ms: 3000,
        },
    }
}

} // verus!
