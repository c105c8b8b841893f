use vstd::prelude::*;
use crate::dispatch::{
    absent, binding_fails, binds, first_named, options_bindable, resolution, CommandData,
};
use crate::handler::{entry_at, registered, RegistryEntry};
use crate::schema::{CommandDescriptor, CommandKey, OptionDescriptor};
use crate::value::{converted, DataOption, OptionType, OptionValue};

verus! {

/// After registering a well-formed descriptor under a free key, looking up
/// that key finds the descriptor with the binder it was registered with,
/// and looking up any other key finds what it found before.
pub proof fn register_then_lookup<B>(
    table: Map<CommandKey, RegistryEntry<B>>,
    d: CommandDescriptor,
    b: B,
    k: CommandKey,
)
    requires
        d.wf(),
        !table.contains_key(d.key()),
    ensures
        k == d.key() ==> entry_at(registered(table, d, b), k) == Some(RegistryEntry { descriptor: d, binder: b }),
        k != d.key() ==> entry_at(registered(table, d, b), k) == entry_at(table, k),
{
}

/// Once a key is registered, registering another descriptor under the same
/// key is refused and leaves the table as it was.
pub proof fn register_duplicate_rejected<B>(
    table: Map<CommandKey, RegistryEntry<B>>,
    d1: CommandDescriptor,
    b1: B,
    d2: CommandDescriptor,
    b2: B,
)
    requires
        d1.key() == d2.key(),
    ensures
        registered(table, d1, b1).contains_key(d2.key()),
        registered(registered(table, d1, b1), d2, b2) == registered(table, d1, b1),
{
}

/// A required option that the invocation lacks makes binding fail, whatever
/// other options are present.
pub proof fn required_option_missing_fails(descs: Seq<OptionDescriptor>, opts: Seq<DataOption>, i: int)
    requires
        0 <= i < descs.len(),
        descs[i].required,
        absent(opts, descs[i].name@),
    ensures
        binding_fails(descs[i], opts),
        !options_bindable(descs, opts),
{
}

/// An optional option that the invocation lacks binds to no value and never
/// makes binding fail.
pub proof fn optional_option_missing_binds_none(d: OptionDescriptor, opts: Seq<DataOption>)
    requires
        !d.required,
        absent(opts, d.name@),
    ensures
        binds(d, opts, None),
        !binding_fails(d, opts),
        forall|v: OptionValue| !binds(d, opts, Some(v)),
{
}

/// A supplied value whose kind differs from the option's declared kind makes
/// binding fail, and is never bound in any form.
pub proof fn mismatched_kind_fails(d: OptionDescriptor, opts: Seq<DataOption>, j: int)
    requires
        first_named(opts, d.name@, j),
        opts[j].value.kind_of() != d.kind,
    ensures
        converted(opts[j].value, d.kind) is None,
        binding_fails(d, opts),
        forall|v: OptionValue| !binds(d, opts, Some(v)),
        forall|a: Option<OptionValue>| !binds(d, opts, a),
{
    assert forall|v: OptionValue| !binds(d, opts, Some(v)) by {
        assert forall|i: int| first_named(opts, d.name@, i) implies i == j by {
            if i < j {
                assert(opts[i].name@ != d.name@);
            } else if i > j {
                assert(opts[j].name@ != d.name@);
            }
        }
    }
    assert(!absent(opts, d.name@)) by {
        assert(opts[j].name@ == d.name@);
    }
}

/// An integer value never converts to a number, nor a number to an integer.
pub proof fn no_numeric_coercion(v: OptionValue)
    ensures
        v is Integer ==> converted(v, OptionType::Number) is None,
        v is Number ==> converted(v, OptionType::Integer) is None,
{
}

/// An invocation of a command name that the table does not hold resolves to
/// `CommandNotFound`, before any option is bound.
pub proof fn unknown_command_not_found<B, E>(table: Map<CommandKey, RegistryEntry<B>>, data: CommandData)
    requires
        !table.contains_key((data.name@, None)),
    ensures
        resolution::<B, E>(table, data) matches Err(e) && e is CommandNotFound,
{
}

} // verus!
