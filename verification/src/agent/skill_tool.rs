//! The `skill` tool: hands the model the instructions of a skill it may
//! load on demand, by name.
use vstd::prelude::*;

use crate::skills::types::{LoadMode, Skill};
use crate::text::{append, chars_of, join, join_strings, same, string_from, strings_view};

verus! {

/// The tool, holding the skills the model may load.
pub struct SkillTool {
    skills: Vec<Skill>,
}

/// The skills of `v` loaded on demand, in order.
pub open spec fn model_invoked(v: Seq<Skill>) -> Seq<Skill>
    decreases v.len(),
{
    if v.len() == 0 {
        v
    } else if v.last().load_mode is ModelInvoked {
        model_invoked(v.drop_last()).push(v.last())
    } else {
        model_invoked(v.drop_last())
    }
}

/// The names of a list of skills.
pub open spec fn skill_names(v: Seq<Skill>) -> Seq<Seq<char>> {
    v.map_values(|s: Skill| s.name@)
}

/// Whether `i` is the first position of a skill named `n`.
pub open spec fn first_named(v: Seq<Skill>, n: Seq<char>, i: int) -> bool {
    0 <= i < v.len() && v[i].name@ == n && forall|j: int| 0 <= j < i ==> v[j].name@ != n
}

/// The skills offered on demand are exactly the model-invoked skills of
/// the input, in their order: none loaded always or by file pattern is
/// offered, and none loaded on demand is left out.
pub proof fn offered_skills_are_the_model_invoked_ones(v: Seq<Skill>)
    ensures
        model_invoked(v) == v.filter(|s: Skill| s.load_mode is ModelInvoked),
        forall|i: int|
            0 <= i < model_invoked(v).len() ==> #[trigger] model_invoked(v)[i].load_mode
                is ModelInvoked,
        forall|i: int|
            0 <= i < v.len() && v[i].load_mode is ModelInvoked ==> model_invoked(v).contains(
                #[trigger] v[i],
            ),
    decreases v.len(),
{
    let pred = |s: Skill| s.load_mode is ModelInvoked;
    reveal(Seq::filter);
    if v.len() > 0 {
        offered_skills_are_the_model_invoked_ones(v.drop_last());
        assert(v.filter(pred) == if pred(v.last()) {
            v.drop_last().filter(pred).push(v.last())
        } else {
            v.drop_last().filter(pred)
        });
    }
    let m = model_invoked(v);
    assert forall|i: int| 0 <= i < m.len() implies #[trigger] m[i].load_mode is ModelInvoked by {
        v.lemma_filter_pred(pred, i);
    }
    assert forall|i: int| 0 <= i < v.len() && v[i].load_mode is ModelInvoked implies m.contains(
        #[trigger] v[i],
    ) by {
        v.lemma_filter_contains_rev(pred, v[i]);
        assert(v.contains(v[i]));
    }
}

fn find_skill(skills: &Vec<Skill>, name: &[char]) -> (r: Option<usize>)
    ensures
        match r {
            Some(i) => first_named(skills@, name@, i as int),
            None => forall|j: int| 0 <= j < skills@.len() ==> skills@[j].name@ != name@,
        },
{
    let mut i: usize = 0;
    while i < skills.len()
        invariant
            i <= skills@.len(),
            forall|j: int| 0 <= j < i ==> skills@[j].name@ != name@,
        decreases skills@.len() - i,
    {
        if same(chars_of(skills[i].name.as_str()).as_slice(), name) {
            return Some(i);
        }
        i = i + 1;
    }
    None
}

impl SkillTool {
    /// The skills the tool offers.
    pub closed spec fn offered(&self) -> Seq<Skill> {
        self.skills@
    }

    /// A tool offering the model-invoked skills of `all_skills`.
    pub fn new(all_skills: Vec<Skill>) -> (r: SkillTool)
        ensures
            r.offered() == model_invoked(all_skills@),
    {
        let mut rev: Vec<Skill> = Vec::new();
        let mut rest = all_skills;
        let ghost orig = rest@;
        while rest.len() > 0
            invariant
                orig == rest@ + rev@.reverse(),
            decreases rest@.len(),
        {
            let ghost before = rest@;
            let ghost rb = rev@;
            let x = rest.pop().unwrap();
            assert(before == rest@.push(x));
            rev.push(x);
            assert(rev@.reverse() =~= seq![x] + rb.reverse());
            assert(rest@.push(x) + rb.reverse() =~= rest@ + (seq![x] + rb.reverse()));
        }
        assert(orig =~= rev@.reverse());
        let ghost n = rev@.len();
        let mut skills: Vec<Skill> = Vec::new();
        while rev.len() > 0
            invariant
                n == orig.len(),
                rev@.len() <= n,
                forall|j: int| 0 <= j < rev@.len() ==> rev@[j] == orig[n - 1 - j],
                skills@ == model_invoked(orig.take(n - rev@.len())),
            decreases rev@.len(),
        {
            let ghost rb = rev@;
            let x = rev.pop().unwrap();
            let ghost done = n - rb.len();
            assert(x == orig[done]);
            assert(orig.take(done + 1).drop_last() =~= orig.take(done));
            if matches!(x.load_mode, LoadMode::ModelInvoked) {
                skills.push(x);
            }
        }
        assert(orig.take(n as int) =~= orig);
        SkillTool { skills }
    }

    /// Runs the tool with its `name` argument: the body of the first
    /// offered skill of that name; an error naming every offered skill when
    /// there is none, or when the argument is missing.
    pub fn invoke(&self, name: Option<&str>) -> (r: Result<String, String>)
        ensures
            match name {
                None => r matches Err(e) && e@ == "missing required 'name' argument"@,
                Some(n) => if exists|i: int| first_named(self.offered(), n@, i) {
                    r matches Ok(b) && exists|i: int|
                        first_named(self.offered(), n@, i) && b@ == self.offered()[i].body@
                } else {
                    r matches Err(e) && e@ == "no skill named '"@ + n@
                        + "' is available. Available skills: "@ + join(
                        skill_names(self.offered()),
                        ", "@,
                    )
                },
            },
    {
        let n = match name {
            Some(n) => n,
            None => {
                return Err("missing required 'name' argument".to_owned());
            },
        };
        let target = chars_of(n);
        match find_skill(&self.skills, target.as_slice()) {
            Some(i) => {
                assert(first_named(self.offered(), n@, i as int));
                return Ok(self.skills[i].body.clone());
            },
            None => {},
        }
        assert(!(exists|k: int| first_named(self.offered(), n@, k)));
        let mut names: Vec<String> = Vec::new();
        let mut k: usize = 0;
        while k < self.skills.len()
            invariant
                k <= self.skills@.len(),
                strings_view(names@) == skill_names(self.skills@.take(k as int)),
            decreases self.skills@.len() - k,
        {
            let ghost nb = strings_view(names@);
            names.push(self.skills[k].name.clone());
            assert(strings_view(names@) =~= skill_names(self.skills@.take(k + 1))) by {
                assert(skill_names(self.skills@.take(k + 1)) =~= nb.push(self.skills@[k as int].name@));
            }
            k = k + 1;
        }
        assert(self.skills@.take(self.skills@.len() as int) =~= self.skills@);
        assert(strings_view(names@) == skill_names(self.skills@));
        let joined = join_strings(&names, ", ");
        let mut m = chars_of("no skill named '");
        append(&mut m, target.as_slice());
        append(&mut m, chars_of("' is available. Available skills: ").as_slice());
        append(&mut m, chars_of(joined.as_str()).as_slice());
        assert(m@ == "no skill named '"@ + n@ + "' is available. Available skills: "@ + join(
            skill_names(self.offered()),
            ", "@,
        ));
        Err(string_from(m.as_slice()))
    }
}

} // verus!
