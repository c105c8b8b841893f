use vstd::prelude::*;
use crate::handler::{CommandHandler, RegistryEntry, entry_at, key_of};
use crate::schema::{CommandKey, CommandKind, OptionDescriptor};
use crate::value::{convert, converted, deref_value, DataOption, OptionType, OptionValue};

verus! {

/// Why a dispatch did not reach, or did not complete, a handler.
#[derive(Debug)]
pub enum Error<E> {
    /// The interaction is not an application command.
    NotApplicationCommand,
    /// No command is registered for the invocation.
    CommandNotFound,
    /// The invocation's options do not fit the command's options.
    OptionBindingFailed,
    /// The handler ran and failed with `error`.
    CommandError { error: E },
}

/// An invocation of a command: its name and its options.
#[derive(Debug)]
pub struct CommandData {
    pub name: String,
    pub options: Vec<DataOption>,
}

/// What an interaction carries.
#[derive(Debug)]
pub enum InteractionData {
    ApplicationCommand(CommandData),
    MessageComponent,
    ModalSubmit,
}

/// An inbound interaction event.
#[derive(Debug)]
pub struct Interaction {
    pub data: Option<InteractionData>,
}

/// A resolved invocation: the entry to run and the bound arguments, one for
/// each of the entry's options, in declaration order.
#[derive(Debug)]
pub struct BoundCall<'a, B> {
    pub entry: &'a RegistryEntry<B>,
    pub args: Vec<Option<&'a OptionValue>>,
}

/// `j` is the first position in `opts` of an option named `name`.
pub open spec fn first_named(opts: Seq<DataOption>, name: Seq<char>, j: int) -> bool {
    &&& 0 <= j < opts.len()
    &&& opts[j].name@ == name
    &&& forall|k: int| 0 <= k < j ==> (#[trigger] opts[k]).name@ != name
}

/// No option in `opts` is named `name`.
pub open spec fn absent(opts: Seq<DataOption>, name: Seq<char>) -> bool {
    forall|k: int| 0 <= k < opts.len() ==> (#[trigger] opts[k]).name@ != name
}

/// Binding option `d` against `opts` gives `a`: the converted value of the
/// first option of the same name, or nothing when an optional one is absent.
pub open spec fn binds(d: OptionDescriptor, opts: Seq<DataOption>, a: Option<OptionValue>) -> bool {
    match a {
        Some(v) => exists|j: int|
            first_named(opts, d.name@, j) && converted(opts[j].value, d.kind) == Some(v),
        None => absent(opts, d.name@) && !d.required,
    }
}

/// Binding option `d` against `opts` fails: it is required and absent, or
/// the first option of its name has another kind.
pub open spec fn binding_fails(d: OptionDescriptor, opts: Seq<DataOption>) -> bool {
    ||| absent(opts, d.name@) && d.required
    ||| exists|j: int| first_named(opts, d.name@, j) && converted(opts[j].value, d.kind) is None
}

/// Every option of `descs` binds against `opts`.
pub open spec fn options_bindable(descs: Seq<OptionDescriptor>, opts: Seq<DataOption>) -> bool {
    forall|i: int| 0 <= i < descs.len() ==> !binding_fails(#[trigger] descs[i], opts)
}

/// `args` are the arguments that binding `descs` against `opts` gives.
pub open spec fn bound_args(
    descs: Seq<OptionDescriptor>,
    opts: Seq<DataOption>,
    args: Seq<Option<&OptionValue>>,
) -> bool {
    &&& args.len() == descs.len()
    &&& forall|i: int| 0 <= i < descs.len() ==> binds(#[trigger] descs[i], opts, deref_value(args[i]))
}

/// `j` is the one position in `opts` that holds a subcommand group.
pub open spec fn sole_group(opts: Seq<DataOption>, j: int) -> bool {
    &&& 0 <= j < opts.len()
    &&& opts[j].value is SubCommandGroup
    &&& forall|k: int| 0 <= k < opts.len() && k != j ==> !((#[trigger] opts[k]).value is SubCommandGroup)
}

/// The options nested in a subcommand group value.
pub open spec fn group_options(v: OptionValue) -> Seq<DataOption> {
    match v {
        OptionValue::SubCommandGroup(o) => o@,
        _ => Seq::empty(),
    }
}

/// Where invocation `data` leads in `table`: the key of the command to run
/// and the options to bind, or the error that stops it first.
pub open spec fn resolution<B, E>(table: Map<CommandKey, RegistryEntry<B>>, data: CommandData) -> Result<
    (CommandKey, Seq<DataOption>),
    Error<E>,
> {
    let top: CommandKey = (data.name@, None);
    if !table.contains_key(top) {
        Err(Error::CommandNotFound)
    } else if !table[top].descriptor.is_group() {
        Ok((top, data.options@))
    } else if exists|j: int| sole_group(data.options@, j) {
        let j = choose|j: int| sole_group(data.options@, j);
        let key: CommandKey = (data.name@, Some(data.options@[j].name@));
        if table.contains_key(key) {
            Ok((key, group_options(data.options@[j].value)))
        } else {
            Err(Error::CommandNotFound)
        }
    } else {
        Err(Error::OptionBindingFailed)
    }
}

/// The position of the first option in `opts` named `name`.
pub fn find_option(opts: &Vec<DataOption>, name: &String) -> (r: Option<usize>)
    ensures
        r matches Some(j) ==> first_named(opts@, name@, j as int),
        r is None ==> absent(opts@, name@),
{
    let mut k: usize = 0;
    while k < opts.len()
        invariant
            k <= opts@.len(),
            forall|i: int| 0 <= i < k ==> (#[trigger] opts@[i]).name@ != name@,
        decreases opts@.len() - k,
    {
        if opts[k].name == *name {
            return Some(k);
        }
        k = k + 1;
    }
    None
}

/// Binds one option against `opts`; `None` when binding fails.
pub fn bind_option<'a>(d: &OptionDescriptor, opts: &'a Vec<DataOption>) -> (r: Option<
    Option<&'a OptionValue>,
>)
    ensures
        r is None <==> binding_fails(*d, opts@),
        r matches Some(a) ==> binds(*d, opts@, deref_value(a)),
{
    match find_option(opts, &d.name) {
        Some(j) => {
            let c = convert(&opts[j].value, d.kind);
            proof {
                assert forall|i: int| first_named(opts@, d.name@, i) implies i == j by {
                    if i < j {
                        assert(opts@[i].name@ != d.name@);
                    } else if i > j {
                        assert(opts@[j as int].name@ != d.name@);
                    }
                }
            }
            match c {
                Some(v) => Some(Some(v)),
                None => None,
            }
        },
        None => {
            if d.required {
                None
            } else {
                Some(None)
            }
        },
    }
}

/// Binds every option of `descs` against `opts`, in order; `None` when any
/// of them fails, so that no partial binding is ever handed out.
pub fn bind_options<'a>(descs: &Vec<OptionDescriptor>, opts: &'a Vec<DataOption>) -> (r: Option<
    Vec<Option<&'a OptionValue>>,
>)
    ensures
        r is Some <==> options_bindable(descs@, opts@),
        r matches Some(args) ==> bound_args(descs@, opts@, args@),
{
    let mut args: Vec<Option<&'a OptionValue>> = Vec::new();
    let mut i: usize = 0;
    while i < descs.len()
        invariant
            i <= descs@.len(),
            args@.len() == i,
            forall|k: int|
                0 <= k < i ==> !binding_fails(#[trigger] descs@[k], opts@) && binds(
                    descs@[k],
                    opts@,
                    deref_value(args@[k]),
                ),
        decreases descs@.len() - i,
    {
        match bind_option(&descs[i], opts) {
            Some(a) => {
                args.push(a);
            },
            None => {
                return None;
            },
        }
        i = i + 1;
    }
    Some(args)
}

/// The one position in `opts` that holds a subcommand group, if exactly
/// one does.
pub fn find_group(opts: &Vec<DataOption>) -> (r: Option<usize>)
    ensures
        r matches Some(j) ==> sole_group(opts@, j as int),
        r is None ==> !exists|j: int| sole_group(opts@, j),
{
    let mut found: Option<usize> = None;
    let mut k: usize = 0;
    while k < opts.len()
        invariant
            k <= opts@.len(),
            match found {
                Some(j) => j < k && opts@[j as int].value is SubCommandGroup && forall|i: int|
                    0 <= i < k && i != j ==> !((#[trigger] opts@[i]).value is SubCommandGroup),
                None => forall|i: int| 0 <= i < k ==> !((#[trigger] opts@[i]).value is SubCommandGroup),
            },
        decreases opts@.len() - k,
    {
        if opts[k].value.kind() == OptionType::SubCommandGroup {
            match found {
                Some(j) => {
                    assert forall|x: int| !sole_group(opts@, x) by {
                        if 0 <= x < opts@.len() {
                            if x != j as int {
                                assert(opts@[j as int].value is SubCommandGroup);
                            } else {
                                assert(opts@[k as int].value is SubCommandGroup);
                            }
                        }
                    }
                    return None;
                },
                None => {
                    found = Some(k);
                },
            }
        }
        k = k + 1;
    }
    found
}

impl<B> CommandHandler<B> {
    /// Resolves an interaction to the command it invokes and binds that
    /// command's options. The handler is run only on `Ok`, with the bound
    /// arguments; its outcome then goes through `complete`.
    pub fn handle_command_interaction<'a, E>(&'a self, interaction: &'a Interaction) -> (r: Result<
        BoundCall<'a, B>,
        Error<E>,
    >)
        requires
            self.wf(),
        ensures
            match interaction.data {
                Some(InteractionData::ApplicationCommand(data)) => match resolution::<B, E>(self@, data) {
                    Err(e) => r matches Err(f) && f == e,
                    Ok((key, opts)) => {
                        &&& r is Ok <==> options_bindable(self@[key].descriptor.options@, opts)
                        &&& r matches Ok(call) ==> *call.entry == self@[key] && bound_args(
                            self@[key].descriptor.options@,
                            opts,
                            call.args@,
                        )
                        &&& r matches Err(e) ==> e is OptionBindingFailed
                    },
                },
                _ => r matches Err(e) && e is NotApplicationCommand,
            },
    {
        let data = match &interaction.data {
            Some(InteractionData::ApplicationCommand(d)) => d,
            _ => {
                return Err(Error::NotApplicationCommand);
            },
        };
        let top = match self.lookup(&data.name, None) {
            Some(e) => e,
            None => {
                return Err(Error::CommandNotFound);
            },
        };
        let ghost topkey: CommandKey = (data.name@, None);
        assert(key_of(&data.name, None) == topkey);
        match top.descriptor.kind {
            CommandKind::Group => {
                let j = match find_group(&data.options) {
                    Some(j) => j,
                    None => {
                        return Err(Error::OptionBindingFailed);
                    },
                };
                let sub = &data.options[j];
                assert(forall|x: int| sole_group(data.options@, x) ==> x == j);
                let nested = match &sub.value {
                    OptionValue::SubCommandGroup(o) => o,
                    _ => {
                        return Err(Error::OptionBindingFailed);
                    },
                };
                let entry = match self.lookup(&data.name, Some(&sub.name)) {
                    Some(e) => e,
                    None => {
                        return Err(Error::CommandNotFound);
                    },
                };
                match bind_options(&entry.descriptor.options, nested) {
                    Some(args) => Ok(BoundCall { entry, args }),
                    None => Err(Error::OptionBindingFailed),
                }
            },
            _ => {
                match bind_options(&top.descriptor.options, &data.options) {
                    Some(args) => Ok(BoundCall { entry: top, args }),
                    None => Err(Error::OptionBindingFailed),
                }
            },
        }
    }
}

/// Turns a handler's outcome into the outcome of the dispatch: success is
/// passed on unchanged, and a failure is kept as the cause of a
/// `CommandError`.
pub fn complete<T, E>(outcome: Result<T, E>) -> (r: Result<T, Error<E>>)
    ensures
        match outcome {
            Ok(t) => r matches Ok(u) && u == t,
            Err(e) => r matches Err(Error::CommandError { error }) && error == e,
        },
{
    match outcome {
        Ok(t) => Ok(t),
        Err(e) => Err(Error::CommandError { error: e }),
    }
}

} // verus!
