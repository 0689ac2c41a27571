//! Declared command inputs, the values an invocation supplies, and decoding
//! the one against the other.
use vstd::prelude::*;

verus! {

/// The type a declared command input accepts.
#[derive(Debug, Clone, Copy, PartialEq, Eq, Structural)]
pub enum OptionKind {
    String,
    Integer,
    Boolean,
    User,
    Role,
}

/// A value supplied for a command input. Users and roles are given by id.
#[derive(Debug)]
pub enum OptionValue {
    String(String),
    Integer(i64),
    Boolean(bool),
    User(u64),
    Role(u64),
}

/// One declared input of a command.
#[derive(Debug)]
pub struct OptionSpec {
    pub name: String,
    pub description: String,
    pub kind: OptionKind,
    pub required: bool,
    pub autocomplete: bool,
    /// Smallest integer accepted, if bounded below.
    pub min_int: Option<i64>,
    /// Largest integer accepted, if bounded above.
    pub max_int: Option<i64>,
    /// Named integer values offered to pick from, if any.
    pub choices: Vec<(String, i64)>,
}

/// One input as an invocation supplies it; in an autocomplete request, the
/// input being typed is the focused one.
#[derive(Debug)]
pub struct CommandOption {
    pub name: String,
    pub value: OptionValue,
    pub focused: bool,
}

pub open spec fn kind_of(v: OptionValue) -> OptionKind {
    match v {
        OptionValue::String(_) => OptionKind::String,
        OptionValue::Integer(_) => OptionKind::Integer,
        OptionValue::Boolean(_) => OptionKind::Boolean,
        OptionValue::User(_) => OptionKind::User,
        OptionValue::Role(_) => OptionKind::Role,
    }
}

impl OptionValue {
    pub fn kind(&self) -> (k: OptionKind)
        ensures
            k == kind_of(*self),
    {
        match self {
            OptionValue::String(_) => OptionKind::String,
            OptionValue::Integer(_) => OptionKind::Integer,
            OptionValue::Boolean(_) => OptionKind::Boolean,
            OptionValue::User(_) => OptionKind::User,
            OptionValue::Role(_) => OptionKind::Role,
        }
    }

    pub fn duplicate(&self) -> (r: OptionValue)
        ensures
            r == *self,
    {
        match self {
            OptionValue::String(s) => OptionValue::String(s.clone()),
            OptionValue::Integer(i) => OptionValue::Integer(*i),
            OptionValue::Boolean(b) => OptionValue::Boolean(*b),
            OptionValue::User(u) => OptionValue::User(*u),
            OptionValue::Role(r) => OptionValue::Role(*r),
        }
    }
}

} // verus!

verus! {

/// The value supplied under `name`: the first supplied input of that name.
pub open spec fn find_value(provided: Seq<CommandOption>, name: Seq<char>) -> Option<OptionValue>
    decreases provided.len(),
{
    if provided.len() == 0 {
        None
    } else if provided[0].name@ == name {
        Some(provided[0].value)
    } else {
        find_value(provided.drop_first(), name)
    }
}

/// A declared input is satisfied: a required one is supplied, and a supplied
/// value has the declared type.
pub open spec fn satisfies(spec: OptionSpec, v: Option<OptionValue>) -> bool {
    match v {
        None => !spec.required,
        Some(val) => kind_of(val) == spec.kind,
    }
}

/// Why an invocation's inputs do not fit the command's declaration.
#[derive(Debug)]
pub enum DecodeError {
    /// A required input was not supplied.
    Missing(String),
    /// An input was supplied with a type other than the declared one.
    Mismatch(String),
}

/// `e` reports that the declared input `spec` is not satisfied by `v`.
pub open spec fn reports(e: DecodeError, spec: OptionSpec, v: Option<OptionValue>) -> bool {
    match e {
        DecodeError::Missing(n) => v is None && n@ == spec.name@,
        DecodeError::Mismatch(n) => v is Some && n@ == spec.name@,
    }
}

impl DecodeError {
    /// The text shown to the invoking user.
    pub fn message(&self) -> (s: String)
        ensures
            s@ == match self {
                DecodeError::Missing(n) => "missing required argument: "@ + n@,
                DecodeError::Mismatch(n) => "wrong type for argument: "@ + n@,
            },
    {
        match self {
            DecodeError::Missing(n) => {
                let mut s = String::from_str("missing required argument: ");
                s.append(n.as_str());
                s
            },
            DecodeError::Mismatch(n) => {
                let mut s = String::from_str("wrong type for argument: ");
                s.append(n.as_str());
                s
            },
        }
    }
}

/// The value supplied under `name`, if any.
pub fn lookup<'a>(provided: &'a Vec<CommandOption>, name: &str) -> (r: Option<&'a OptionValue>)
    ensures
        match r {
            Some(v) => find_value(provided@, name@) == Some(*v),
            None => find_value(provided@, name@) is None,
        },
{
    let key = name.to_string();
    let mut i: usize = 0;
    assert(provided@.subrange(0, provided@.len() as int) =~= provided@);
    while i < provided.len()
        invariant
            key@ == name@,
            i <= provided@.len(),
            find_value(provided@, name@) == find_value(provided@.subrange(i as int, provided@.len() as int), name@),
        decreases provided@.len() - i,
    {
        let ghost rest = provided@.subrange(i as int, provided@.len() as int);
        assert(rest[0] == provided@[i as int]);
        assert(rest.drop_first() =~= provided@.subrange(i + 1, provided@.len() as int));
        if provided[i].name == key {
            return Some(&provided[i].value);
        }
        i = i + 1;
    }
    assert(provided@.subrange(i as int, provided@.len() as int).len() == 0);
    None
}

/// Matches supplied inputs against declared ones: for each declared input,
/// the value supplied under its name. Refused at the first declared input
/// that is required and missing, or supplied with another type.
pub fn decode(schema: &Vec<OptionSpec>, provided: &Vec<CommandOption>) -> (r: Result<Vec<Option<OptionValue>>, DecodeError>)
    ensures
        r is Ok <==> forall|i: int| 0 <= i < schema@.len() ==> satisfies(#[trigger] schema@[i], find_value(provided@, schema@[i].name@)),
        match r {
            Ok(vals) => vals@.len() == schema@.len() && forall|i: int| 0 <= i < schema@.len() ==> #[trigger] vals@[i] == find_value(provided@, schema@[i].name@),
            Err(e) => exists|i: int| 0 <= i < schema@.len()
                && (forall|j: int| 0 <= j < i ==> satisfies(#[trigger] schema@[j], find_value(provided@, schema@[j].name@)))
                && !satisfies(#[trigger] schema@[i], find_value(provided@, schema@[i].name@))
                && reports(e, schema@[i], find_value(provided@, schema@[i].name@)),
        },
{
    let mut vals: Vec<Option<OptionValue>> = Vec::new();
    let mut i: usize = 0;
    while i < schema.len()
        invariant
            i <= schema@.len(),
            vals@.len() == i,
            forall|j: int| 0 <= j < i ==> satisfies(#[trigger] schema@[j], find_value(provided@, schema@[j].name@)),
            forall|j: int| 0 <= j < i ==> #[trigger] vals@[j] == find_value(provided@, schema@[j].name@),
        decreases schema@.len() - i,
    {
        let spec = &schema[i];
        match lookup(provided, spec.name.as_str()) {
            None => {
                if spec.required {
                    let e = DecodeError::Missing(spec.name.clone());
                    assert(reports(e, schema@[i as int], find_value(provided@, schema@[i as int].name@)));
                    return Err(e);
                }
                vals.push(None);
            },
            Some(v) => {
                if v.kind() != spec.kind {
                    let e = DecodeError::Mismatch(spec.name.clone());
                    assert(reports(e, schema@[i as int], find_value(provided@, schema@[i as int].name@)));
                    return Err(e);
                }
                vals.push(Some(v.duplicate()));
            },
        }
        i = i + 1;
    }
    Ok(vals)
}

} // verus!

verus! {

/// The supplied inputs fit the declared input `name` of type `kind`.
pub open spec fn fits(provided: Seq<CommandOption>, name: Seq<char>, kind: OptionKind, required: bool) -> bool {
    match find_value(provided, name) {
        None => !required,
        Some(v) => kind_of(v) == kind,
    }
}

pub open spec fn string_input(provided: Seq<CommandOption>, name: Seq<char>) -> Option<String> {
    match find_value(provided, name) {
        Some(OptionValue::String(s)) => Some(s),
        _ => None,
    }
}

pub open spec fn integer_input(provided: Seq<CommandOption>, name: Seq<char>) -> Option<i64> {
    match find_value(provided, name) {
        Some(OptionValue::Integer(i)) => Some(i),
        _ => None,
    }
}

pub open spec fn boolean_input(provided: Seq<CommandOption>, name: Seq<char>) -> Option<bool> {
    match find_value(provided, name) {
        Some(OptionValue::Boolean(b)) => Some(b),
        _ => None,
    }
}

/// `e` reports that the declared input `name` does not fit.
pub open spec fn reports_input(e: DecodeError, provided: Seq<CommandOption>, name: Seq<char>) -> bool {
    match e {
        DecodeError::Missing(n) => find_value(provided, name) is None && n@ == name,
        DecodeError::Mismatch(n) => find_value(provided, name) is Some && n@ == name,
    }
}

/// A declared input, as registered with the platform.
pub fn declare(name: &str, description: &str, kind: OptionKind, required: bool, autocomplete: bool) -> (s: OptionSpec)
    ensures
        s.name@ == name@,
        s.description@ == description@,
        s.kind == kind,
        s.required == required,
        s.autocomplete == autocomplete,
        s.min_int is None,
        s.max_int is None,
        s.choices@.len() == 0,
{
    OptionSpec {
        name: name.to_string(),
        description: description.to_string(),
        kind,
        required,
        autocomplete,
        min_int: None,
        max_int: None,
        choices: Vec::new(),
    }
}

impl OptionSpec {
    /// The same input, accepting integers from `min` to `max` only.
    pub fn with_range(self, min: i64, max: i64) -> (s: OptionSpec)
        ensures
            s.name == self.name && s.description == self.description && s.kind == self.kind,
            s.required == self.required && s.autocomplete == self.autocomplete,
            s.min_int == Some(min) && s.max_int == Some(max),
            s.choices == self.choices,
    {
        OptionSpec { min_int: Some(min), max_int: Some(max), ..self }
    }

    /// The same input, offering one more named value.
    pub fn with_choice(self, name: &str, value: i64) -> (s: OptionSpec)
        ensures
            s.name == self.name && s.description == self.description && s.kind == self.kind,
            s.required == self.required && s.autocomplete == self.autocomplete,
            s.min_int == self.min_int && s.max_int == self.max_int,
            s.choices@.len() == self.choices@.len() + 1,
            s.choices@.drop_last() == self.choices@,
            s.choices@.last().0@ == name@ && s.choices@.last().1 == value,
    {
        let mut s = self;
        s.choices.push((name.to_string(), value));
        s
    }
}

fn missing_or_mismatch(provided: &Vec<CommandOption>, name: &str, found: bool) -> (e: DecodeError)
    requires
        found == (find_value(provided@, name@) is Some),
    ensures
        reports_input(e, provided@, name@),
{
    if found {
        DecodeError::Mismatch(name.to_string())
    } else {
        DecodeError::Missing(name.to_string())
    }
}

/// The text input `name`; `None` when an optional one is not supplied.
pub fn take_string(provided: &Vec<CommandOption>, name: &str, required: bool) -> (r: Result<Option<String>, DecodeError>)
    ensures
        r is Ok <==> fits(provided@, name@, OptionKind::String, required),
        match r {
            Ok(v) => v == string_input(provided@, name@),
            Err(e) => reports_input(e, provided@, name@),
        },
{
    match lookup(provided, name) {
        Some(OptionValue::String(s)) => Ok(Some(s.clone())),
        None => if required {
            Err(missing_or_mismatch(provided, name, false))
        } else {
            Ok(None)
        },
        Some(_) => Err(missing_or_mismatch(provided, name, true)),
    }
}

/// The integer input `name`; `None` when an optional one is not supplied.
pub fn take_integer(provided: &Vec<CommandOption>, name: &str, required: bool) -> (r: Result<Option<i64>, DecodeError>)
    ensures
        r is Ok <==> fits(provided@, name@, OptionKind::Integer, required),
        match r {
            Ok(v) => v == integer_input(provided@, name@),
            Err(e) => reports_input(e, provided@, name@),
        },
{
    match lookup(provided, name) {
        Some(OptionValue::Integer(i)) => Ok(Some(*i)),
        None => if required {
            Err(missing_or_mismatch(provided, name, false))
        } else {
            Ok(None)
        },
        Some(_) => Err(missing_or_mismatch(provided, name, true)),
    }
}

/// The yes/no input `name`; `None` when an optional one is not supplied.
pub fn take_boolean(provided: &Vec<CommandOption>, name: &str, required: bool) -> (r: Result<Option<bool>, DecodeError>)
    ensures
        r is Ok <==> fits(provided@, name@, OptionKind::Boolean, required),
        match r {
            Ok(v) => v == boolean_input(provided@, name@),
            Err(e) => reports_input(e, provided@, name@),
        },
{
    match lookup(provided, name) {
        Some(OptionValue::Boolean(b)) => Ok(Some(*b)),
        None => if required {
            Err(missing_or_mismatch(provided, name, false))
        } else {
            Ok(None)
        },
        Some(_) => Err(missing_or_mismatch(provided, name, true)),
    }
}

/// The required text input `name`.
pub fn need_string(provided: &Vec<CommandOption>, name: &str) -> (r: Result<String, DecodeError>)
    ensures
        r is Ok <==> fits(provided@, name@, OptionKind::String, true),
        match r {
            Ok(v) => Some(v) == string_input(provided@, name@),
            Err(e) => reports_input(e, provided@, name@),
        },
{
    match lookup(provided, name) {
        Some(OptionValue::String(s)) => Ok(s.clone()),
        None => Err(missing_or_mismatch(provided, name, false)),
        Some(_) => Err(missing_or_mismatch(provided, name, true)),
    }
}

/// The required integer input `name`.
pub fn need_integer(provided: &Vec<CommandOption>, name: &str) -> (r: Result<i64, DecodeError>)
    ensures
        r is Ok <==> fits(provided@, name@, OptionKind::Integer, true),
        match r {
            Ok(v) => Some(v) == integer_input(provided@, name@),
            Err(e) => reports_input(e, provided@, name@),
        },
{
    match lookup(provided, name) {
        Some(OptionValue::Integer(i)) => Ok(*i),
        None => Err(missing_or_mismatch(provided, name, false)),
        Some(_) => Err(missing_or_mismatch(provided, name, true)),
    }
}

/// Position of the first focused input from `i` on, or `provided.len()`.
pub open spec fn first_focused(provided: Seq<CommandOption>, i: int) -> int
    decreases provided.len() - i,
{
    if i < 0 || i >= provided.len() {
        provided.len() as int
    } else if provided[i].focused {
        i
    } else {
        first_focused(provided, i + 1)
    }
}

/// The name of the input being typed in an autocomplete request.
pub fn focused_option(provided: &Vec<CommandOption>) -> (r: Option<&String>)
    ensures
        match r {
            Some(n) => first_focused(provided@, 0) < provided@.len() && *n == provided@[first_focused(provided@, 0)].name,
            None => first_focused(provided@, 0) == provided@.len(),
        },
{
    let mut i: usize = 0;
    while i < provided.len()
        invariant
            i <= provided@.len(),
            first_focused(provided@, 0) == first_focused(provided@, i as int),
        decreases provided@.len() - i,
    {
        if provided[i].focused {
            return Some(&provided[i].name);
        }
        i = i + 1;
    }
    None
}

} // verus!
