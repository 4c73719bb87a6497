//! What can go wrong when templates are registered, and when they are rendered.
use vstd::prelude::*;

use crate::names::{order_names, NameMap, NameOrder};

verus! {

/// A source that could not be read, with the reason in words.
#[derive(Debug)]
pub struct IoError {
    pub message: String,
}

/// Why a template could not be had.
#[derive(Debug)]
pub enum TemplateErrorReason {
    /// The source of the template could not be read.
    IoError(IoError),
    /// The text is not a template.
    Syntax(String),
}

/// A template that could not be had.
#[derive(Debug)]
pub struct TemplateError {
    pub reason: TemplateErrorReason,
    pub template_name: Option<String>,
    pub line_no: Option<usize>,
    pub column_no: Option<usize>,
}

impl TemplateError {
    /// The name of the template, where it is known.
    pub open spec fn name_spec(self) -> Option<Seq<char>> {
        match self.template_name {
            Some(name) => Some(name@),
            None => None,
        }
    }

    /// Whether two errors say the same.
    pub open spec fn says_same(self, other: TemplateError) -> bool {
        &&& self.reason == other.reason
        &&& self.name_spec() == other.name_spec()
        &&& self.line_no == other.line_no
        &&& self.column_no == other.column_no
    }

    /// Whether this is the failure to read the source of the template `name`.
    pub open spec fn is_load_failure(self, err: IoError, name: Seq<char>) -> bool {
        &&& self.reason == TemplateErrorReason::IoError(err)
        &&& self.name_spec() == Some(name)
        &&& self.line_no is None
        &&& self.column_no is None
    }

    /// The name of the template, where it is known.
    pub fn name(&self) -> (name: Option<&str>)
        ensures
            match name {
                Some(n) => self.name_spec() == Some(n@),
                None => self.name_spec() is None,
            },
    {
        match &self.template_name {
            Some(name) => Some(name.as_str()),
            None => None,
        }
    }
}

impl vstd::std_specs::convert::FromSpecImpl<(IoError, String)> for TemplateError {
    open spec fn obeys_from_spec() -> bool {
        true
    }

    open spec fn from_spec(failure: (IoError, String)) -> TemplateError {
        TemplateError {
            reason: TemplateErrorReason::IoError(failure.0),
            template_name: Some(failure.1),
            line_no: None,
            column_no: None,
        }
    }
}

impl From<(IoError, String)> for TemplateError {
    fn from(failure: (IoError, String)) -> (error: TemplateError) {
        TemplateError {
            reason: TemplateErrorReason::IoError(failure.0),
            template_name: Some(failure.1),
            line_no: None,
            column_no: None,
        }
    }
}

/// A script that could not be had.
#[derive(Debug)]
pub enum ScriptError {
    /// The source of the script could not be read.
    IoError(IoError),
    /// The text is not a script.
    ParseError(rhai::ParseError),
}

/// Why a template could not be rendered.
#[derive(Debug)]
pub enum RenderErrorReason {
    /// No template of that name is registered.
    TemplateNotFound(String),
    /// The template could not be had.
    TemplateError(TemplateError),
    /// No helper of that name is registered.
    HelperNotFound(String),
    /// The script of a helper could not be had.
    ScriptError(ScriptError),
    /// A variable has no value in strict mode.
    MissingVariable(Option<String>),
    /// The rendered bytes are not UTF-8.
    Utf8Error,
    /// The data could not be turned into a context.
    SerdeError(String),
    /// Anything else, in words.
    Other(String),
}

/// A template that could not be rendered.
#[derive(Debug)]
pub struct RenderError {
    pub reason: RenderErrorReason,
    pub template_name: Option<String>,
    pub line_no: Option<usize>,
    pub column_no: Option<usize>,
}

impl RenderErrorReason {
    /// Whether two reasons say the same.
    pub open spec fn says_same(self, other: RenderErrorReason) -> bool {
        match (self, other) {
            (
                RenderErrorReason::TemplateNotFound(name),
                RenderErrorReason::TemplateNotFound(other_name),
            ) => name@ == other_name@,
            (
                RenderErrorReason::TemplateError(error),
                RenderErrorReason::TemplateError(other_error),
            ) => error.says_same(other_error),
            _ => self == other,
        }
    }
}

impl RenderError {
    /// Whether two errors say the same.
    pub open spec fn says_same(self, other: RenderError) -> bool {
        &&& self.reason.says_same(other.reason)
        &&& self.template_name == other.template_name
        &&& self.line_no == other.line_no
        &&& self.column_no == other.column_no
    }

    /// Whether this says that there is no template `name`, and nothing else.
    pub open spec fn is_not_found(self, name: Seq<char>) -> bool {
        &&& self.reason matches RenderErrorReason::TemplateNotFound(n)
        &&& n@ == name
        &&& self.template_name is None
        &&& self.line_no is None
        &&& self.column_no is None
    }

    /// Why the template could not be rendered.
    pub fn reason(&self) -> (reason: &RenderErrorReason)
        ensures
            *reason == self.reason,
    {
        &self.reason
    }
}

impl vstd::std_specs::convert::FromSpecImpl<RenderErrorReason> for RenderError {
    open spec fn obeys_from_spec() -> bool {
        true
    }

    open spec fn from_spec(reason: RenderErrorReason) -> RenderError {
        RenderError { reason, template_name: None, line_no: None, column_no: None }
    }
}

impl From<RenderErrorReason> for RenderError {
    fn from(reason: RenderErrorReason) -> (error: RenderError) {
        RenderError { reason, template_name: None, line_no: None, column_no: None }
    }
}

impl vstd::std_specs::convert::FromSpecImpl<TemplateError> for RenderError {
    open spec fn obeys_from_spec() -> bool {
        true
    }

    open spec fn from_spec(error: TemplateError) -> RenderError {
        RenderError {
            reason: RenderErrorReason::TemplateError(error),
            template_name: None,
            line_no: None,
            column_no: None,
        }
    }
}

impl From<TemplateError> for RenderError {
    fn from(error: TemplateError) -> (render_error: RenderError) {
        RenderError {
            reason: RenderErrorReason::TemplateError(error),
            template_name: None,
            line_no: None,
            column_no: None,
        }
    }
}

/// A template package that was refused.
#[derive(Debug)]
pub enum TemplatePackageError {
    /// The members that could not be had, in the order of their names.
    Compile(Vec<TemplateError>),
    /// Each member with a partial that it refers to and nobody provides, in the
    /// order of the members and then of the partials.
    UnresolvedPartials(Vec<(String, String)>),
}

/// The names in a list, each where it occurs first.
pub open spec fn distinct(names: Seq<Seq<char>>) -> Seq<Seq<char>>
    decreases names.len(),
{
    if names.len() == 0 {
        Seq::empty()
    } else {
        let earlier = distinct(names.drop_last());
        if earlier.contains(names.last()) {
            earlier
        } else {
            earlier.push(names.last())
        }
    }
}

/// The names that errors carry.
pub open spec fn carried_names(errors: Seq<TemplateError>) -> Seq<Seq<char>>
    decreases errors.len(),
{
    if errors.len() == 0 {
        Seq::empty()
    } else {
        match errors.last().name_spec() {
            Some(name) => carried_names(errors.drop_last()).push(name),
            None => carried_names(errors.drop_last()),
        }
    }
}

/// The texts of a list of names.
pub open spec fn spelled_names(names: Seq<&str>) -> Seq<Seq<char>> {
    Seq::new(names.len(), |i: int| names[i]@)
}

/// Adds a name to a list, unless it is there already.
fn push_distinct<'a>(names: &mut Vec<&'a str>, name: &'a str)
    ensures
        spelled_names(final(names)@) == if spelled_names(old(names)@).contains(name@) {
            spelled_names(old(names)@)
        } else {
            spelled_names(old(names)@).push(name@)
        },
{
    let mut i: usize = 0;
    while i < names.len()
        invariant
            *names == *old(names),
            i <= names@.len(),
            forall|j: int| 0 <= j < i ==> #[trigger] names@[j]@ != name@,
        decreases names@.len() - i,
    {
        if order_names(names[i], name) == NameOrder::Same {
            assert(spelled_names(names@)[i as int] == name@);
            return;
        }
        i += 1;
    }
    proof {
        let listed = spelled_names(names@);
        if listed.contains(name@) {
            let j = listed.index_of(name@);
            assert(names@[j]@ == name@);
        }
    }
    names.push(name);
    assert(spelled_names(names@) =~= spelled_names(old(names)@).push(name@));
}

impl TemplatePackageError {
    /// The names of the templates that the package was refused for.
    pub open spec fn names(self) -> Seq<Seq<char>> {
        match self {
            TemplatePackageError::Compile(errors) => distinct(carried_names(errors@)),
            TemplatePackageError::UnresolvedPartials(list) => distinct(
                Seq::new(list@.len(), |i: int| list@[i].0@),
            ),
        }
    }

    /// The names of the templates that the package was refused for.
    pub fn template_names(&self) -> (names: Vec<&str>)
        ensures
            spelled_names(names@) == self.names(),
    {
        let mut names: Vec<&str> = Vec::new();
        assert(spelled_names(names@) =~= Seq::empty());
        match self {
            TemplatePackageError::Compile(errors) => {
                let mut i: usize = 0;
                assert(errors@.take(0) =~= Seq::empty());
                while i < errors.len()
                    invariant
                        i <= errors@.len(),
                        spelled_names(names@) == distinct(carried_names(errors@.take(i as int))),
                    decreases errors@.len() - i,
                {
                    let ghost before = carried_names(errors@.take(i as int));
                    assert(errors@.take(i + 1).drop_last() =~= errors@.take(i as int));
                    if let Some(name) = errors[i].name() {
                        push_distinct(&mut names, name);
                        assert(before.push(name@).drop_last() =~= before);
                    }
                    i += 1;
                }
                assert(errors@.take(i as int) =~= errors@);
            },
            TemplatePackageError::UnresolvedPartials(list) => {
                let ghost all = Seq::new(list@.len(), |i: int| list@[i].0@);
                let mut i: usize = 0;
                assert(all.take(0) =~= Seq::empty());
                while i < list.len()
                    invariant
                        i <= list@.len(),
                        all == Seq::new(list@.len(), |i: int| list@[i].0@),
                        spelled_names(names@) == distinct(all.take(i as int)),
                    decreases list@.len() - i,
                {
                    assert(all.take(i + 1).drop_last() =~= all.take(i as int));
                    push_distinct(&mut names, list[i].0.as_str());
                    i += 1;
                }
                assert(all.take(i as int) =~= all);
            },
        }
        names
    }
}

/// Why one member of an update was refused.
#[derive(Debug)]
pub enum TemplateUpdateMemberError {
    /// The template could not be had.
    Template(TemplateError),
    /// The update holds the name more than once.
    DuplicateName,
    /// The member refers to a partial that nobody provides. `referenced_by` lists
    /// all members that do.
    MissingDependency { name: String, referenced_by: Vec<String> },
}

/// An update that was refused, with what is wrong with each bad member.
#[derive(Debug)]
pub struct TemplateUpdateError {
    pub members: NameMap<TemplateUpdateMemberError>,
}

} // verus!
