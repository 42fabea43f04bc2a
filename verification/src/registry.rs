use vstd::prelude::*;

use crate::text::str_eq;

verus! {

/// A typed parameter value carried by an invocation.
pub enum ParamValue {
    Int(i64),
    Text(String),
}

/// The type a parameter schema declares.
#[derive(Clone, Copy, PartialEq, Eq, Structural, Debug)]
pub enum ParamType {
    Integer,
    Text,
}

/// The constraint a schema puts on an integer parameter.
pub enum Constraint {
    /// Any value of the declared type.
    Free,
    /// An inclusive range of integers.
    Range(i64, i64),
    /// A finite enumeration of admissible integers.
    OneOf(Vec<i64>),
}

/// One declared parameter: its name, type, and constraint.
pub struct ParamSpec {
    pub name: String,
    pub ptype: ParamType,
    pub constraint: Constraint,
}

/// The handlers the registry can dispatch to.
#[derive(Clone, Copy, PartialEq, Eq, Structural, Debug)]
pub enum Command {
    Greet,
    Roll,
    Photo,
}

/// One registry entry: a command name, its handler, and its schema.
pub struct RegistryEntry {
    pub name: String,
    pub command: Command,
    pub schema: Vec<ParamSpec>,
}

/// The immutable command table built once at startup.
pub struct CommandRegistry {
    pub entries: Vec<RegistryEntry>,
}

/// The parameter a validation failure points at. When the parameter is
/// declared, `schema_index` gives its row in the schema; when it is an
/// undeclared supplied parameter, `schema_index` is `None`.
pub struct ValidationError {
    pub param: String,
    pub schema_index: Option<usize>,
}

/// Whether `x` satisfies the constraint `c`.
pub open spec fn constraint_ok(c: Constraint, x: i64) -> bool {
    match c {
        Constraint::Free => true,
        Constraint::Range(lo, hi) => lo <= x <= hi,
        Constraint::OneOf(vals) => vals@.contains(x),
    }
}

/// Whether `v` has the declared type and satisfies the constraint of `p`.
pub open spec fn value_ok(p: ParamSpec, v: ParamValue) -> bool {
    match p.ptype {
        ParamType::Integer => v is Int && constraint_ok(p.constraint, v->Int_0),
        ParamType::Text => v is Text,
    }
}

/// The value bound to the first parameter named `name`, if any.
pub open spec fn find_param(ps: Seq<(String, ParamValue)>, name: Seq<char>) -> Option<ParamValue>
    decreases ps.len(),
{
    if ps.len() == 0 {
        None
    } else if ps[0].0@ == name {
        Some(ps[0].1)
    } else {
        find_param(ps.drop_first(), name)
    }
}

/// Whether the schema declares a parameter named `name`.
pub open spec fn declared(schema: Seq<ParamSpec>, name: Seq<char>) -> bool {
    exists|k: int| 0 <= k < schema.len() && schema[k].name@ == name
}

/// Whether the declared parameter `k` of the schema is present and valid.
pub open spec fn schema_entry_ok(
    schema: Seq<ParamSpec>,
    ps: Seq<(String, ParamValue)>,
    k: int,
) -> bool {
    &&& find_param(ps, schema[k].name@) is Some
    &&& value_ok(schema[k], find_param(ps, schema[k].name@)->Some_0)
}

/// Whether the parameters satisfy the schema: every declared parameter is
/// present, typed, and constrained as declared, and every supplied
/// parameter is declared.
pub open spec fn params_valid(schema: Seq<ParamSpec>, ps: Seq<(String, ParamValue)>) -> bool {
    &&& forall|k: int| 0 <= k < schema.len() ==> #[trigger] schema_entry_ok(schema, ps, k)
    &&& forall|k: int| 0 <= k < ps.len() ==> declared(schema, (#[trigger] ps[k]).0@)
}

/// Whether the parameter named `name` witnesses a schema violation: it is
/// declared but missing or out of constraint, or supplied but undeclared.
pub open spec fn param_violates(
    schema: Seq<ParamSpec>,
    ps: Seq<(String, ParamValue)>,
    name: Seq<char>,
) -> bool {
    ||| exists|k: int|
        0 <= k < schema.len() && (#[trigger] schema[k]).name@ == name && !schema_entry_ok(
            schema,
            ps,
            k,
        )
    ||| !declared(schema, name) && exists|k: int| 0 <= k < ps.len() && (#[trigger] ps[k]).0@ == name
}

/// Skipping parameters whose names all differ from `name` does not change
/// which value `name` is bound to.
proof fn lemma_find_param_prefix(ps: Seq<(String, ParamValue)>, name: Seq<char>, k: int)
    requires
        0 <= k <= ps.len(),
        forall|j: int| 0 <= j < k ==> (#[trigger] ps[j]).0@ != name,
    ensures
        find_param(ps, name) == find_param(ps.skip(k), name),
    decreases k,
{
    if k == 0 {
        assert(ps.skip(0) =~= ps);
    } else {
        lemma_find_param_prefix(ps, name, k - 1);
        assert(ps.skip(k - 1)[0] == ps[k - 1]);
        assert(ps.skip(k - 1).drop_first() =~= ps.skip(k));
    }
}

/// Finds the first parameter named `name`, as an index into `ps`.
pub(crate) fn find_param_index(ps: &Vec<(String, ParamValue)>, name: &str) -> (r: Option<usize>)
    ensures
        r is Some ==> r->Some_0 < ps@.len() && ps@[r->Some_0 as int].0@ == name@ && find_param(
            ps@,
            name@,
        ) == Some(ps@[r->Some_0 as int].1),
        r is None ==> find_param(ps@, name@) is None,
{
    let mut k: usize = 0;
    while k < ps.len()
        invariant
            k <= ps@.len(),
            forall|j: int| 0 <= j < k ==> (#[trigger] ps@[j]).0@ != name@,
        decreases ps@.len() - k,
    {
        if str_eq(ps[k].0.as_str(), name) {
            proof {
                lemma_find_param_prefix(ps@, name@, k as int);
                assert(ps@.skip(k as int)[0] == ps@[k as int]);
            }
            return Some(k);
        }
        k = k + 1;
    }
    proof {
        lemma_find_param_prefix(ps@, name@, ps@.len() as int);
        assert(ps@.skip(ps@.len() as int).len() == 0);
    }
    None
}

/// Whether the schema declares a parameter named `name`.
fn exec_declared(schema: &Vec<ParamSpec>, name: &str) -> (r: bool)
    ensures
        r == declared(schema@, name@),
{
    let mut k: usize = 0;
    while k < schema.len()
        invariant
            k <= schema@.len(),
            forall|j: int| 0 <= j < k ==> (#[trigger] schema@[j]).name@ != name@,
        decreases schema@.len() - k,
    {
        if str_eq(schema[k].name.as_str(), name) {
            proof {
                assert(schema@[k as int].name@ == name@);
            }
            return true;
        }
        k = k + 1;
    }
    false
}

/// Whether `x` satisfies the constraint `c`.
fn check_constraint(c: &Constraint, x: i64) -> (r: bool)
    ensures
        r == constraint_ok(*c, x),
{
    match c {
        Constraint::Free => true,
        Constraint::Range(lo, hi) => *lo <= x && x <= *hi,
        Constraint::OneOf(vals) => {
            let mut k: usize = 0;
            while k < vals.len()
                invariant
                    k <= vals@.len(),
                    constraint_ok(*c, x) == vals@.contains(x),
                    forall|j: int| 0 <= j < k ==> vals@[j] != x,
                decreases vals@.len() - k,
            {
                if vals[k] == x {
                    proof {
                        assert(vals@.contains(x));
                    }
                    return true;
                }
                k = k + 1;
            }
            proof {
                assert(!vals@.contains(x));
            }
            false
        },
    }
}

/// Whether `v` has the declared type and satisfies the constraint of `p`.
fn check_value(p: &ParamSpec, v: &ParamValue) -> (r: bool)
    ensures
        r == value_ok(*p, *v),
{
    match v {
        ParamValue::Int(x) => {
            match p.ptype {
                ParamType::Integer => check_constraint(&p.constraint, *x),
                ParamType::Text => false,
            }
        },
        ParamValue::Text(_) => {
            match p.ptype {
                ParamType::Integer => false,
                ParamType::Text => true,
            }
        },
    }
}

/// Validates the parameters against the schema, reporting the first
/// offending parameter when they do not satisfy it.
pub fn validate_params(schema: &Vec<ParamSpec>, ps: &Vec<(String, ParamValue)>) -> (r: Result<
    (),
    ValidationError,
>)
    ensures
        r is Ok <==> params_valid(schema@, ps@),
        r is Err ==> param_violates(schema@, ps@, r->Err_0.param@),
        r is Err && r->Err_0.schema_index is Some ==> r->Err_0.schema_index->Some_0
            < schema@.len() && schema@[r->Err_0.schema_index->Some_0 as int].name@
            == r->Err_0.param@ && !schema_entry_ok(
            schema@,
            ps@,
            r->Err_0.schema_index->Some_0 as int,
        ),
        r is Err && r->Err_0.schema_index is None ==> !declared(schema@, r->Err_0.param@),
{
    let mut k: usize = 0;
    while k < schema.len()
        invariant
            k <= schema@.len(),
            forall|j: int| 0 <= j < k ==> #[trigger] schema_entry_ok(schema@, ps@, j),
        decreases schema@.len() - k,
    {
        let ok = match find_param_index(ps, schema[k].name.as_str()) {
            Some(ix) => check_value(&schema[k], &ps[ix].1),
            None => false,
        };
        if !ok {
            proof {
                assert(!schema_entry_ok(schema@, ps@, k as int));
            }
            return Err(ValidationError { param: schema[k].name.clone(), schema_index: Some(k) });
        }
        proof {
            assert(schema_entry_ok(schema@, ps@, k as int));
        }
        k = k + 1;
    }
    let mut k2: usize = 0;
    while k2 < ps.len()
        invariant
            k2 <= ps@.len(),
            forall|j: int| 0 <= j < schema@.len() ==> #[trigger] schema_entry_ok(schema@, ps@, j),
            forall|j: int| 0 <= j < k2 ==> declared(schema@, (#[trigger] ps@[j]).0@),
        decreases ps@.len() - k2,
    {
        if !exec_declared(schema, ps[k2].0.as_str()) {
            return Err(ValidationError { param: ps[k2].0.clone(), schema_index: None });
        }
        k2 = k2 + 1;
    }
    Ok(())
}

/// Law: a rejected parameter list always holds a witness. Whenever the
/// parameters fail their schema, some parameter name witnesses a concrete
/// violation: a declared parameter that is missing, mistyped, or out of
/// constraint, or a supplied parameter that is not declared.
pub proof fn lemma_invalid_params_have_witness(schema: Seq<ParamSpec>, ps: Seq<(String, ParamValue)>)
    requires
        !params_valid(schema, ps),
    ensures
        exists|nm: Seq<char>| param_violates(schema, ps, nm),
{
    if !(forall|k: int| 0 <= k < schema.len() ==> #[trigger] schema_entry_ok(schema, ps, k)) {
        let k = choose|k: int| 0 <= k < schema.len() && !(#[trigger] schema_entry_ok(schema, ps, k));
        assert(param_violates(schema, ps, schema[k].name@));
    } else {
        let k = choose|k: int| 0 <= k < ps.len() && !declared(schema, (#[trigger] ps[k]).0@);
        assert(param_violates(schema, ps, ps[k].0@));
    }
}

/// The entry for the first registry row named `name`, if any.
pub open spec fn lookup_spec(entries: Seq<RegistryEntry>, name: Seq<char>) -> Option<RegistryEntry>
    decreases entries.len(),
{
    if entries.len() == 0 {
        None
    } else if entries[0].name@ == name {
        Some(entries[0])
    } else {
        lookup_spec(entries.drop_first(), name)
    }
}

/// Skipping rows whose names all differ from `name` does not change which
/// entry `name` resolves to.
proof fn lemma_lookup_prefix(entries: Seq<RegistryEntry>, name: Seq<char>, k: int)
    requires
        0 <= k <= entries.len(),
        forall|j: int| 0 <= j < k ==> (#[trigger] entries[j]).name@ != name,
    ensures
        lookup_spec(entries, name) == lookup_spec(entries.skip(k), name),
    decreases k,
{
    if k == 0 {
        assert(entries.skip(0) =~= entries);
    } else {
        lemma_lookup_prefix(entries, name, k - 1);
        assert(entries.skip(k - 1)[0] == entries[k - 1]);
        assert(entries.skip(k - 1).drop_first() =~= entries.skip(k));
    }
}

impl CommandRegistry {
    /// Looks a command up by name.
    pub fn lookup(&self, name: &str) -> (r: Option<&RegistryEntry>)
        ensures
            r is Some ==> lookup_spec(self.entries@, name@) == Some(*r->Some_0),
            r is None ==> lookup_spec(self.entries@, name@) is None,
    {
        let mut k: usize = 0;
        while k < self.entries.len()
            invariant
                k <= self.entries@.len(),
                forall|j: int| 0 <= j < k ==> (#[trigger] self.entries@[j]).name@ != name@,
            decreases self.entries@.len() - k,
        {
            if str_eq(self.entries[k].name.as_str(), name) {
                proof {
                    lemma_lookup_prefix(self.entries@, name@, k as int);
                    assert(self.entries@.skip(k as int)[0] == self.entries@[k as int]);
                }
                return Some(&self.entries[k]);
            }
            k = k + 1;
        }
        proof {
            lemma_lookup_prefix(self.entries@, name@, self.entries@.len() as int);
            assert(self.entries@.skip(self.entries@.len() as int).len() == 0);
        }
        None
    }
}

/// The schema of the dice command: an enumerated die shape, a bounded die
/// count, and a modifier within the platform's integer width.
pub open spec fn roll_schema_ok(schema: Seq<ParamSpec>) -> bool {
    &&& schema.len() == 3
    &&& schema[0].name@ == "sides"@
    &&& schema[0].ptype is Integer
    &&& schema[0].constraint is OneOf
    &&& schema[0].constraint->OneOf_0@ == seq![4i64, 6i64, 8i64, 10i64, 12i64, 20i64, 100i64]
    &&& schema[1].name@ == "count"@
    &&& schema[1].ptype is Integer
    &&& schema[1].constraint is Range
    &&& schema[1].constraint->Range_0 == 1i64
    &&& schema[1].constraint->Range_1 == 100i64
    &&& schema[2].name@ == "modifier"@
    &&& schema[2].ptype is Integer
    &&& schema[2].constraint is Range
    &&& schema[2].constraint->Range_0 == -2147483648i64
    &&& schema[2].constraint->Range_1 == 2147483647i64
}

/// The registered command table: greet and photo without parameters, and
/// the dice command with its three constrained integers.
pub open spec fn registry_wf(r: CommandRegistry) -> bool {
    &&& r.entries@.len() == 3
    &&& r.entries@[0].name@ == "greet"@
    &&& r.entries@[0].command is Greet
    &&& r.entries@[0].schema@.len() == 0
    &&& r.entries@[1].name@ == "roll"@
    &&& r.entries@[1].command is Roll
    &&& roll_schema_ok(r.entries@[1].schema@)
    &&& r.entries@[2].name@ == "photo"@
    &&& r.entries@[2].command is Photo
    &&& r.entries@[2].schema@.len() == 0
}

impl CommandRegistry {
    /// Builds the command table registered at startup.
    pub fn new() -> (r: CommandRegistry)
        ensures
            registry_wf(r),
    {
        let mut sides_vals: Vec<i64> = Vec::new();
        sides_vals.push(4);
        sides_vals.push(6);
        sides_vals.push(8);
        sides_vals.push(10);
        sides_vals.push(12);
        sides_vals.push(20);
        sides_vals.push(100);
        proof {
            assert(sides_vals@ =~= seq![4i64, 6i64, 8i64, 10i64, 12i64, 20i64, 100i64]);
        }
        let mut roll_schema: Vec<ParamSpec> = Vec::new();
        roll_schema.push(
            ParamSpec {
                name: String::from_str("sides"),
                ptype: ParamType::Integer,
                constraint: Constraint::OneOf(sides_vals),
            },
        );
        roll_schema.push(
            ParamSpec {
                name: String::from_str("count"),
                ptype: ParamType::Integer,
                constraint: Constraint::Range(1, 100),
            },
        );
        roll_schema.push(
            ParamSpec {
                name: String::from_str("modifier"),
                ptype: ParamType::Integer,
                constraint: Constraint::Range(-2147483648, 2147483647),
            },
        );
        let mut entries: Vec<RegistryEntry> = Vec::new();
        entries.push(
            RegistryEntry {
                name: String::from_str("greet"),
                command: Command::Greet,
                schema: Vec::new(),
            },
        );
        entries.push(
            RegistryEntry {
                name: String::from_str("roll"),
                command: Command::Roll,
                schema: roll_schema,
            },
        );
        entries.push(
            RegistryEntry {
                name: String::from_str("photo"),
                command: Command::Photo,
                schema: Vec::new(),
            },
        );
        CommandRegistry { entries }
    }
}

} // verus!
