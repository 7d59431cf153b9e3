//! The tools of a Responses request, as they are planned for a chat upstream.
//!
//! A Responses request declares functions, tools that take free text, and tools
//! under namespaces. A chat upstream knows functions alone. The plan holds what
//! each declaration becomes there, and what it takes to undo that in the answer:
//! which names take free text, and which names stand for a name in a namespace.

use crate::json::{Json, Jv};
use crate::json;
use crate::protocol;
use crate::text;
use vstd::prelude::*;
use vstd::string::*;

verus! {

/// A declared tool: the declaration, whether it is in the chat form already, its
/// chat form where it is a plain function, and the function that stands in for it
/// where it takes free text.
pub struct ToolDecl {
    pub tool: Json,
    pub nested: bool,
    pub flat: Option<Json>,
    pub downgraded: Option<Json>,
}

/// What a declared tool means.
#[verifier::ext_equal]
pub struct DeclV {
    pub tool: Jv,
    pub nested: bool,
    pub flat: Option<Jv>,
    pub downgraded: Option<Jv>,
}

impl View for ToolDecl {
    type V = DeclV;

    open spec fn view(&self) -> DeclV {
        DeclV {
            tool: self.tool@,
            nested: self.nested,
            flat: json::opt_owned(self.flat),
            downgraded: json::opt_owned(self.downgraded),
        }
    }
}

/// A name that stands for a name in a namespace.
pub struct ToolSpace {
    pub flat: String,
    pub name: String,
    pub namespace: String,
}

/// What such a name means.
#[verifier::ext_equal]
pub struct SpaceV {
    pub flat: Seq<char>,
    pub name: Seq<char>,
    pub namespace: Seq<char>,
}

impl View for ToolSpace {
    type V = SpaceV;

    open spec fn view(&self) -> SpaceV {
        SpaceV { flat: self.flat@, name: self.name@, namespace: self.namespace@ }
    }
}

/// The plan for the tools of a request.
pub struct ToolPlan {
    pub declarations: Vec<ToolDecl>,
    pub custom: Vec<String>,
    pub spaces: Vec<ToolSpace>,
}

/// What a plan means.
#[verifier::ext_equal]
pub struct PlanV {
    pub declarations: Seq<DeclV>,
    pub custom: Seq<Seq<char>>,
    pub spaces: Seq<SpaceV>,
}

impl View for ToolPlan {
    type V = PlanV;

    open spec fn view(&self) -> PlanV {
        PlanV {
            declarations: Seq::new(self.declarations@.len(), |i: int| self.declarations@[i]@),
            custom: protocol::texts(self.custom@),
            spaces: Seq::new(self.spaces@.len(), |i: int| self.spaces@[i]@),
        }
    }
}

/// The place of the first space under a name from `i` on, or the end.
pub open spec fn space_from(spaces: Seq<SpaceV>, name: Seq<char>, i: int) -> int
    decreases spaces.len() - i,
{
    if i < 0 || i >= spaces.len() || spaces[i].flat == name {
        i
    } else {
        space_from(spaces, name, i + 1)
    }
}

impl PlanV {
    /// Whether the tool of that name takes free text.
    pub open spec fn is_custom(self, name: Seq<char>) -> bool {
        self.custom.contains(name)
    }

    /// An item that calls a tool, with the name and the namespace that the tool
    /// was declared under.
    pub open spec fn restored(self, item: Jv, name: Seq<char>) -> Jv {
        let p = space_from(self.spaces, name, 0);
        if p < self.spaces.len() {
            item.put("name"@, Jv::Str(self.spaces[p].name)).put(
                "namespace"@,
                Jv::Str(self.spaces[p].namespace),
            )
        } else {
            item
        }
    }
}

impl ToolPlan {
    /// A plan for no tools.
    pub fn none() -> (r: ToolPlan)
        ensures
            r@ == (PlanV {
                declarations: Seq::empty(),
                custom: Seq::empty(),
                spaces: Seq::empty(),
            }),
    {
        let r = ToolPlan { declarations: Vec::new(), custom: Vec::new(), spaces: Vec::new() };
        proof {
            assert(r@.declarations =~= Seq::empty());
            assert(r@.custom =~= Seq::empty());
            assert(r@.spaces =~= Seq::empty());
        }
        r
    }

    /// Whether the tool of that name takes free text.
    pub fn is_custom(&self, name: &str) -> (r: bool)
        ensures
            r == self@.is_custom(name@),
    {
        let mut i: usize = 0;
        while i < self.custom.len()
            invariant
                i <= self.custom@.len(),
                forall|k: int| 0 <= k < i ==> #[trigger] protocol::texts(self.custom@)[k] != name@,
            decreases self.custom@.len() - i,
        {
            if text::same(self.custom[i].as_str(), name) {
                proof {
                    assert(protocol::texts(self.custom@)[i as int] == name@);
                }
                return true;
            }
            i = i + 1;
        }
        false
    }

    /// An item that calls a tool, with the name and the namespace that the tool
    /// was declared under.
    pub fn restore_namespace(&self, item: Json, name: &str) -> (r: Json)
        ensures
            r@ == self@.restored(item@, name@),
    {
        let ghost spaces = self@.spaces;
        let mut i: usize = 0;
        while i < self.spaces.len()
            invariant
                i <= self.spaces@.len(),
                spaces == self@.spaces,
                space_from(spaces, name@, 0) == space_from(spaces, name@, i as int),
            decreases self.spaces@.len() - i,
        {
            if text::same(self.spaces[i].flat.as_str(), name) {
                return item.with("name", Json::Str(self.spaces[i].name.clone())).with(
                    "namespace",
                    Json::Str(self.spaces[i].namespace.clone()),
                );
            }
            i = i + 1;
        }
        item
    }

    /// The same plan once more.
    pub fn copy(&self) -> (r: ToolPlan)
        ensures
            r@ == self@,
    {
        let mut declarations: Vec<ToolDecl> = Vec::new();
        let mut i: usize = 0;
        while i < self.declarations.len()
            invariant
                i <= self.declarations@.len(),
                declarations@.len() == i,
                forall|k: int|
                    0 <= k < i ==> (#[trigger] declarations@[k])@ == self.declarations@[k]@,
            decreases self.declarations@.len() - i,
        {
            let d = &self.declarations[i];
            declarations.push(
                ToolDecl {
                    tool: d.tool.copy(),
                    nested: d.nested,
                    flat: json::copy_opt(&d.flat),
                    downgraded: json::copy_opt(&d.downgraded),
                },
            );
            i = i + 1;
        }
        let mut custom: Vec<String> = Vec::new();
        let mut j: usize = 0;
        while j < self.custom.len()
            invariant
                j <= self.custom@.len(),
                custom@.len() == j,
                forall|k: int| 0 <= k < j ==> (#[trigger] custom@[k])@ == self.custom@[k]@,
            decreases self.custom@.len() - j,
        {
            custom.push(self.custom[j].clone());
            j = j + 1;
        }
        let mut spaces: Vec<ToolSpace> = Vec::new();
        let mut l: usize = 0;
        while l < self.spaces.len()
            invariant
                l <= self.spaces@.len(),
                spaces@.len() == l,
                forall|k: int| 0 <= k < l ==> (#[trigger] spaces@[k])@ == self.spaces@[k]@,
            decreases self.spaces@.len() - l,
        {
            let s = &self.spaces[l];
            spaces.push(
                ToolSpace {
                    flat: s.flat.clone(),
                    name: s.name.clone(),
                    namespace: s.namespace.clone(),
                },
            );
            l = l + 1;
        }
        let r = ToolPlan { declarations, custom, spaces };
        proof {
            assert(r@.declarations =~= self@.declarations);
            assert(r@.custom =~= self@.custom);
            assert(r@.spaces =~= self@.spaces);
        }
        r
    }
}

/// Free text as the arguments of the function that stands in for its tool.
pub open spec fn wrapped_input(raw: Seq<char>) -> Seq<char> {
    json::json_text_of(Jv::obj().put("input"@, Jv::Str(raw)))
}

/// Free text as the arguments of the function that stands in for its tool; taking
/// it out again gives the text back.
pub fn wrap_freeform_input(raw: &str) -> (r: String)
    ensures
        r@ == wrapped_input(raw@),
        unwrapped_input(r@) == raw@,
{
    let arguments = Json::obj().with("input", Json::str(raw));
    proof {
        assert(json::texts_only(arguments@));
    }
    json::text_of(&arguments)
}

/// The free text in what arguments spell, else all of the arguments.
pub open spec fn input_or_all(spelled: Option<Jv>, arguments: Seq<char>) -> Seq<char> {
    match spelled {
        Some(v) => match v.get("input"@) {
            Some(Jv::Str(s)) => s,
            _ => arguments,
        },
        None => arguments,
    }
}

/// The free text in what arguments spell, else all of the arguments.
pub fn freeform_input(spelled: Option<Json>, arguments: &str) -> (r: String)
    ensures
        r@ == input_or_all(json::opt_owned(spelled), arguments@),
{
    match spelled {
        Some(v) => match v.get("input") {
            Some(Json::Str(s)) => s.clone(),
            _ => arguments.to_owned(),
        },
        None => arguments.to_owned(),
    }
}

/// The free text in the arguments of the function that stood in for its tool;
/// arguments of any other form are the free text themselves.
pub open spec fn unwrapped_input(arguments: Seq<char>) -> Seq<char> {
    input_or_all(json::parsed_json(arguments), arguments)
}

/// The free text in the arguments of the function that stood in for its tool.
pub fn unwrap_freeform_input(arguments: &str) -> (r: String)
    ensures
        r@ == unwrapped_input(arguments@),
{
    freeform_input(json::parse(arguments), arguments)
}

} // verus!
