use vstd::prelude::*;
use crate::schema::{
    accepts_choices, copy_choices, names_unique, Choice, CommandDescriptor, CommandKind,
    OptionDescriptor,
};
use crate::value::OptionType;

verus! {

/// The settings of a controller: a plain set of top-level commands, or,
/// with `sub`, a group of subcommands under the command named `sub`.
#[derive(Debug)]
pub struct ControllerConfig {
    pub sub: Option<String>,
    pub sub_description: Option<String>,
    pub group: Option<String>,
}

/// The annotation of one option of a handler method.
#[derive(Debug)]
pub struct OptionInfo {
    /// The option's name; the parameter's name when absent.
    pub name: Option<String>,
    pub description: String,
    pub choices: Vec<Choice>,
}

/// The annotation of a handler method.
#[derive(Debug)]
pub struct CommandInfo {
    /// The command's name; the method's name when absent.
    pub name: Option<String>,
    pub description: String,
    /// One annotation for each bindable parameter, in order.
    pub options: Vec<OptionInfo>,
    /// The name of the parameter that receives the invocation context;
    /// `interaction` when absent.
    pub interaction: Option<String>,
}

/// The static type of a handler parameter.
#[derive(Clone, Copy, Debug, PartialEq, Eq, Structural)]
pub enum ParamType {
    /// The native type of an option kind.
    Plain(OptionType),
    /// An optional wrapper around the native type of an option kind.
    Optional(OptionType),
    /// A type that no option kind converts into.
    Unsupported,
}

/// One parameter in a handler method's signature.
#[derive(Debug)]
pub enum Param {
    /// The method's receiver: `&self` is `reference` without `mutable`.
    Receiver { reference: bool, mutable: bool },
    /// A typed parameter; `ident` is absent when its pattern is not a plain
    /// identifier.
    Typed { ident: Option<String>, ty: ParamType },
}

/// A handler method: its name, its annotation and its parameters.
#[derive(Debug)]
pub struct HandlerMethod {
    pub ident: String,
    pub info: CommandInfo,
    pub params: Vec<Param>,
}

/// Why a controller definition was rejected.
#[derive(Clone, Copy, Debug, PartialEq, Eq, Structural)]
pub enum DefinitionError {
    /// `group` was given without `sub`.
    GroupWithoutSub,
    /// `sub` was given without `sub_description`.
    MissingSubDescription,
    /// `sub_description` was given without `sub`.
    UnexpectedSubDescription,
    /// A description is empty.
    EmptyDescription,
    /// The receiver is `&mut self`.
    MutableReceiver,
    /// The receiver is taken by value.
    ReceiverNotReference,
    /// A parameter's pattern is not a plain identifier.
    UnrecognisedIdentifier,
    /// A method has more option annotations than bindable parameters.
    MoreOptionsThanArguments,
    /// A bindable parameter has no option annotation.
    ArgumentWithoutOption,
    /// A bindable parameter's type has no option kind.
    UnsupportedType,
    /// A choice literal's kind differs from its option's kind.
    ChoiceTypeMismatch,
    /// Two options of one method share a name.
    DuplicateOptionName,
}

/// The name of the context parameter of a method with this annotation.
pub open spec fn context_name(info: CommandInfo) -> Seq<char> {
    match info.interaction {
        Some(n) => n@,
        None => "interaction"@,
    }
}

/// A parameter that an option binds to: a typed parameter named by a plain
/// identifier other than the context parameter's.
pub open spec fn is_bindable(p: Param, ctx: Seq<char>) -> bool {
    match p {
        Param::Typed { ident: Some(id), .. } => id@ != ctx,
        _ => false,
    }
}

/// The bindable parameters of `params`, in order.
pub open spec fn bindable(params: Seq<Param>, ctx: Seq<char>) -> Seq<Param>
    decreases params.len(),
{
    if params.len() == 0 {
        Seq::empty()
    } else {
        let rest = bindable(params.drop_last(), ctx);
        if is_bindable(params.last(), ctx) {
            rest.push(params.last())
        } else {
            rest
        }
    }
}

pub open spec fn param_ident(p: Param) -> Seq<char> {
    match p {
        Param::Typed { ident: Some(id), .. } => id@,
        _ => Seq::empty(),
    }
}

pub open spec fn param_type(p: Param) -> ParamType {
    match p {
        Param::Typed { ty, .. } => ty,
        _ => ParamType::Unsupported,
    }
}

/// The option kind of a parameter type, and whether the option is required.
pub open spec fn option_shape(ty: ParamType) -> Option<(OptionType, bool)> {
    match ty {
        ParamType::Plain(t) => if t == OptionType::SubCommandGroup {
            None
        } else {
            Some((t, true))
        },
        ParamType::Optional(t) => if t == OptionType::SubCommandGroup {
            None
        } else {
            Some((t, false))
        },
        ParamType::Unsupported => None,
    }
}

/// The name of the option that annotation `o` declares on parameter `p`.
pub open spec fn option_name(o: OptionInfo, p: Param) -> Seq<char> {
    match o.name {
        Some(n) => n@,
        None => param_ident(p),
    }
}

/// `d` is the option that annotation `o` declares on parameter `p`.
pub open spec fn describes_option(d: OptionDescriptor, o: OptionInfo, p: Param) -> bool {
    &&& d.name@ == option_name(o, p)
    &&& d.description == o.description
    &&& option_shape(param_type(p)) == Some((d.kind, d.required))
    &&& d.choices@ == o.choices@
}

/// Annotation `o` on parameter `p` is valid.
pub open spec fn option_valid(o: OptionInfo, p: Param) -> bool {
    &&& o.description@.len() > 0
    &&& option_shape(param_type(p)) is Some
    &&& forall|k: int|
        0 <= k < o.choices@.len() ==> #[trigger] o.choices@[k].value.kind_of() == option_shape(
            param_type(p),
        )->Some_0.0
}

pub open spec fn receivers_valid(params: Seq<Param>) -> bool {
    forall|i: int|
        0 <= i < params.len() ==> match #[trigger] params[i] {
            Param::Receiver { reference, mutable } => reference && !mutable,
            _ => true,
        }
}

pub open spec fn idents_valid(params: Seq<Param>) -> bool {
    forall|i: int|
        0 <= i < params.len() ==> match #[trigger] params[i] {
            Param::Typed { ident, .. } => ident is Some,
            _ => true,
        }
}

/// The options that method `m` declares have pairwise distinct names.
pub open spec fn option_names_distinct(m: HandlerMethod) -> bool {
    let b = bindable(m.params@, context_name(m.info));
    let os = m.info.options@;
    forall|i: int, j: int|
        0 <= i < os.len() && 0 <= j < os.len() && i != j ==> #[trigger] option_name(os[i], b[i])
            != #[trigger] option_name(os[j], b[j])
}

/// Method `m` is a valid handler definition.
pub open spec fn method_valid(m: HandlerMethod) -> bool {
    let b = bindable(m.params@, context_name(m.info));
    &&& m.info.description@.len() > 0
    &&& receivers_valid(m.params@)
    &&& idents_valid(m.params@)
    &&& m.info.options@.len() == b.len()
    &&& forall|i: int| 0 <= i < b.len() ==> option_valid(#[trigger] m.info.options@[i], b[i])
    &&& option_names_distinct(m)
}

/// The error that annotation `o` on parameter `p` is rejected with, if any:
/// an empty description first, then a type without an option kind, then a
/// choice of another kind.
pub open spec fn option_error(o: OptionInfo, p: Param) -> Option<DefinitionError> {
    if o.description@.len() == 0 {
        Some(DefinitionError::EmptyDescription)
    } else if option_shape(param_type(p)) is None {
        Some(DefinitionError::UnsupportedType)
    } else if exists|k: int|
        0 <= k < o.choices@.len() && (#[trigger] o.choices@[k]).value.kind_of() != option_shape(
            param_type(p),
        )->Some_0.0 {
        Some(DefinitionError::ChoiceTypeMismatch)
    } else {
        None
    }
}

/// The error that parameter `p` is rejected with, if any.
pub open spec fn param_error(p: Param) -> Option<DefinitionError> {
    match p {
        Param::Receiver { reference, mutable } => if mutable {
            Some(DefinitionError::MutableReceiver)
        } else if !reference {
            Some(DefinitionError::ReceiverNotReference)
        } else {
            None
        },
        Param::Typed { ident, .. } => if ident is None {
            Some(DefinitionError::UnrecognisedIdentifier)
        } else {
            None
        },
    }
}

/// The error of the first parameter from position `i` on that has one.
pub open spec fn params_error_from(params: Seq<Param>, i: int) -> Option<DefinitionError>
    decreases params.len() - i,
{
    if i < 0 || i >= params.len() {
        None
    } else if param_error(params[i]) is Some {
        param_error(params[i])
    } else {
        params_error_from(params, i + 1)
    }
}

/// The error of the first annotation from position `i` on that has one,
/// each taken with the bindable parameter at its position.
pub open spec fn options_error_from(os: Seq<OptionInfo>, b: Seq<Param>, i: int) -> Option<
    DefinitionError,
>
    decreases os.len() - i,
{
    if i < 0 || i >= os.len() {
        None
    } else if option_error(os[i], b[i]) is Some {
        option_error(os[i], b[i])
    } else {
        options_error_from(os, b, i + 1)
    }
}

/// The error that method `m` is rejected with, if any: an empty description,
/// then a faulty parameter, then a count of annotations that differs from the
/// count of bindable parameters, then a faulty annotation, then a repeated
/// option name.
pub open spec fn method_error(m: HandlerMethod) -> Option<DefinitionError> {
    let b = bindable(m.params@, context_name(m.info));
    let os = m.info.options@;
    if m.info.description@.len() == 0 {
        Some(DefinitionError::EmptyDescription)
    } else if params_error_from(m.params@, 0) is Some {
        params_error_from(m.params@, 0)
    } else if os.len() > b.len() {
        Some(DefinitionError::MoreOptionsThanArguments)
    } else if os.len() < b.len() {
        Some(DefinitionError::ArgumentWithoutOption)
    } else if options_error_from(os, b, 0) is Some {
        options_error_from(os, b, 0)
    } else if !option_names_distinct(m) {
        Some(DefinitionError::DuplicateOptionName)
    } else {
        None
    }
}

/// The error of the first method from position `i` on that has one.
pub open spec fn methods_error_from(ms: Seq<HandlerMethod>, i: int) -> Option<DefinitionError>
    decreases ms.len() - i,
{
    if i < 0 || i >= ms.len() {
        None
    } else if method_error(ms[i]) is Some {
        method_error(ms[i])
    } else {
        methods_error_from(ms, i + 1)
    }
}

/// The error that controller settings `cfg` are rejected with, if any.
pub open spec fn config_error(cfg: ControllerConfig) -> Option<DefinitionError> {
    if cfg.group is Some && cfg.sub is None {
        Some(DefinitionError::GroupWithoutSub)
    } else if cfg.sub is Some && cfg.sub_description is None {
        Some(DefinitionError::MissingSubDescription)
    } else if cfg.sub is None && cfg.sub_description is Some {
        Some(DefinitionError::UnexpectedSubDescription)
    } else if cfg.sub_description matches Some(d) && d@.len() == 0 {
        Some(DefinitionError::EmptyDescription)
    } else {
        None
    }
}

/// The error that a controller with settings `cfg` and methods `ms` is
/// rejected with, if any: the settings' first, then the first faulty
/// method's.
pub open spec fn controller_error(cfg: ControllerConfig, ms: Seq<HandlerMethod>) -> Option<DefinitionError> {
    if config_error(cfg) is Some {
        config_error(cfg)
    } else {
        methods_error_from(ms, 0)
    }
}

/// The controller settings are consistent.
pub open spec fn config_valid(cfg: ControllerConfig) -> bool {
    &&& !(cfg.group is Some && cfg.sub is None)
    &&& cfg.sub is Some <==> cfg.sub_description is Some
    &&& cfg.sub_description matches Some(d) ==> d@.len() > 0
}

/// The kind of the commands that a controller with settings `cfg` declares.
pub open spec fn method_kind(cfg: ControllerConfig) -> CommandKind {
    match cfg.sub {
        Some(g) => CommandKind::Sub(g),
        None => CommandKind::Root,
    }
}

/// `d` is the command that method `m` declares under settings `cfg`.
pub open spec fn describes_method(d: CommandDescriptor, m: HandlerMethod, cfg: ControllerConfig) -> bool {
    let b = bindable(m.params@, context_name(m.info));
    &&& d.name@ == match m.info.name {
        Some(n) => n@,
        None => m.ident@,
    }
    &&& d.description == m.info.description
    &&& d.kind == method_kind(cfg)
    &&& d.options@.len() == m.info.options@.len()
    &&& forall|i: int|
        0 <= i < d.options@.len() ==> describes_option(
            #[trigger] d.options@[i],
            m.info.options@[i],
            b[i],
        )
}

/// Checks the controller settings.
pub fn check_config(cfg: &ControllerConfig) -> (r: Result<(), DefinitionError>)
    ensures
        r is Ok <==> config_valid(*cfg),
        match r {
            Ok(_) => config_error(*cfg) is None,
            Err(e) => config_error(*cfg) == Some(e),
        },
{
    if cfg.group.is_some() && cfg.sub.is_none() {
        return Err(DefinitionError::GroupWithoutSub);
    }
    if cfg.sub.is_some() && cfg.sub_description.is_none() {
        return Err(DefinitionError::MissingSubDescription);
    }
    match &cfg.sub_description {
        Some(d) => {
            if cfg.sub.is_none() {
                return Err(DefinitionError::UnexpectedSubDescription);
            }
            if d.as_str().is_empty() {
                return Err(DefinitionError::EmptyDescription);
            }
        },
        None => {},
    }
    Ok(())
}

/// Checks the receiver and the patterns of a parameter list.
pub fn check_params(params: &Vec<Param>) -> (r: Result<(), DefinitionError>)
    ensures
        r is Ok <==> receivers_valid(params@) && idents_valid(params@),
        match r {
            Ok(_) => params_error_from(params@, 0) is None,
            Err(e) => params_error_from(params@, 0) == Some(e),
        },
{
    let mut i: usize = 0;
    while i < params.len()
        invariant
            i <= params@.len(),
            params_error_from(params@, 0) == params_error_from(params@, i as int),
            forall|j: int| 0 <= j < i ==> param_error(#[trigger] params@[j]) is None,
        decreases params@.len() - i,
    {
        let err = match &params[i] {
            Param::Receiver { reference, mutable } => {
                if *mutable {
                    Some(DefinitionError::MutableReceiver)
                } else if !*reference {
                    Some(DefinitionError::ReceiverNotReference)
                } else {
                    None
                }
            },
            Param::Typed { ident, .. } => {
                if ident.is_none() {
                    Some(DefinitionError::UnrecognisedIdentifier)
                } else {
                    None
                }
            },
        };
        assert(err == param_error(params@[i as int]));
        match err {
            Some(e) => {
                assert(!receivers_valid(params@) || !idents_valid(params@)) by {
                    assert(param_error(params@[i as int]) is Some);
                }
                return Err(e);
            },
            None => {},
        }
        i = i + 1;
    }
    assert(receivers_valid(params@) && idents_valid(params@)) by {
        assert forall|j: int| 0 <= j < params@.len() implies match #[trigger] params@[j] {
            Param::Receiver { reference, mutable } => reference && !mutable,
            _ => true,
        } by {
            assert(param_error(params@[j]) is None);
        }
        assert forall|j: int| 0 <= j < params@.len() implies match #[trigger] params@[j] {
            Param::Typed { ident, .. } => ident is Some,
            _ => true,
        } by {
            assert(param_error(params@[j]) is None);
        }
    }
    Ok(())
}

/// The positions of the bindable parameters of `params`, in order.
pub fn bindable_params(params: &Vec<Param>, ctx: &String) -> (r: Vec<usize>)
    ensures
        r@.len() == bindable(params@, ctx@).len(),
        forall|k: int|
            0 <= k < r@.len() ==> (#[trigger] r@[k]) < params@.len() && params@[r@[k] as int]
                == bindable(params@, ctx@)[k],
{
    let mut r: Vec<usize> = Vec::new();
    let mut i: usize = 0;
    while i < params.len()
        invariant
            i <= params@.len(),
            r@.len() == bindable(params@.take(i as int), ctx@).len(),
            forall|k: int|
                0 <= k < r@.len() ==> (#[trigger] r@[k]) < i && params@[r@[k] as int] == bindable(
                    params@.take(i as int),
                    ctx@,
                )[k],
        decreases params@.len() - i,
    {
        let ghost before = bindable(params@.take(i as int), ctx@);
        assert(params@.take(i + 1).drop_last() =~= params@.take(i as int));
        let bind = match &params[i] {
            Param::Typed { ident: Some(id), .. } => !(*id == *ctx),
            _ => false,
        };
        assert(bind == is_bindable(params@[i as int], ctx@));
        if bind {
            r.push(i);
        }
        i = i + 1;
    }
    assert(params@.take(params@.len() as int) =~= params@);
    r
}

/// The option kind of a parameter type, and whether the option is required;
/// nothing where the type has no option kind.
pub fn parameter_shape(ty: ParamType) -> (r: Option<(OptionType, bool)>)
    ensures
        r == option_shape(ty),
{
    match ty {
        ParamType::Plain(t) => if t == OptionType::SubCommandGroup {
            None
        } else {
            Some((t, true))
        },
        ParamType::Optional(t) => if t == OptionType::SubCommandGroup {
            None
        } else {
            Some((t, false))
        },
        ParamType::Unsupported => None,
    }
}

/// Builds the option that annotation `o` declares on parameter `p`.
pub fn option_descriptor(o: &OptionInfo, p: &Param) -> (r: Result<OptionDescriptor, DefinitionError>)
    ensures
        r is Ok <==> option_valid(*o, *p),
        r matches Ok(d) ==> describes_option(d, *o, *p) && d.wf(),
        match r {
            Ok(_) => option_error(*o, *p) is None,
            Err(e) => option_error(*o, *p) == Some(e),
        },
{
    if o.description.as_str().is_empty() {
        return Err(DefinitionError::EmptyDescription);
    }
    let ty = match p {
        Param::Typed { ty, .. } => *ty,
        Param::Receiver { .. } => ParamType::Unsupported,
    };
    let (kind, required) = match parameter_shape(ty) {
        Some(shape) => shape,
        None => {
            return Err(DefinitionError::UnsupportedType);
        },
    };
    let mut k: usize = 0;
    while k < o.choices.len()
        invariant
            k <= o.choices@.len(),
            o.description@.len() > 0,
            option_shape(param_type(*p)) == Some((kind, required)),
            forall|j: int| 0 <= j < k ==> #[trigger] o.choices@[j].value.kind_of() == kind,
        decreases o.choices@.len() - k,
    {
        if o.choices[k].value.kind() != kind {
            assert(o.choices@[k as int].value.kind_of() != kind);
            assert(option_error(*o, *p) == Some(DefinitionError::ChoiceTypeMismatch));
            return Err(DefinitionError::ChoiceTypeMismatch);
        }
        k = k + 1;
    }
    let name = match &o.name {
        Some(n) => n.clone(),
        None => match p {
            Param::Typed { ident: Some(id), .. } => id.clone(),
            _ => String::new(),
        },
    };
    let d = OptionDescriptor {
        name,
        description: o.description.clone(),
        kind,
        required,
        choices: copy_choices(&o.choices),
    };
    if d.choices.len() > 0 {
        assert(d.choices@[0].value.kind_of() == kind);
    }
    Ok(d)
}

/// Whether no two options in `options` share a name.
pub fn names_distinct(options: &Vec<OptionDescriptor>) -> (r: bool)
    ensures
        r == names_unique(options@),
{
    let n = options.len();
    let mut i: usize = 0;
    while i < n
        invariant
            n == options@.len(),
            i <= n,
            forall|a: int, b: int|
                0 <= a < i && 0 <= b < n && a != b ==> #[trigger] options@[a].name@
                    != #[trigger] options@[b].name@,
        decreases n - i,
    {
        let mut j: usize = 0;
        while j < n
            invariant
                n == options@.len(),
                i < n,
                j <= n,
                forall|a: int, b: int|
                    0 <= a < i && 0 <= b < n && a != b ==> #[trigger] options@[a].name@
                        != #[trigger] options@[b].name@,
                forall|b: int| 0 <= b < j && i != b ==> options@[i as int].name@ != #[trigger] options@[b].name@,
            decreases n - j,
        {
            if i != j && options[i].name == options[j].name {
                return false;
            }
            j = j + 1;
        }
        i = i + 1;
    }
    true
}

/// Derives the command that method `m` declares under settings `cfg`.
pub fn compile_method(m: &HandlerMethod, cfg: &ControllerConfig) -> (r: Result<
    CommandDescriptor,
    DefinitionError,
>)
    ensures
        r is Ok <==> method_valid(*m),
        r matches Ok(d) ==> describes_method(d, *m, *cfg) && d.wf(),
        match r {
            Ok(_) => method_error(*m) is None,
            Err(e) => method_error(*m) == Some(e),
        },
{
    if m.info.description.as_str().is_empty() {
        return Err(DefinitionError::EmptyDescription);
    }
    match check_params(&m.params) {
        Ok(()) => {},
        Err(e) => {
            assert(!method_valid(*m));
            return Err(e);
        },
    }
    let ctx = match &m.info.interaction {
        Some(n) => n.clone(),
        None => "interaction".to_owned(),
    };
    assert(ctx@ == context_name(m.info));
    let ghost b = bindable(m.params@, context_name(m.info));
    let ghost os = m.info.options@;
    let pos = bindable_params(&m.params, &ctx);
    assert(receivers_valid(m.params@) && idents_valid(m.params@));
    if m.info.options.len() > pos.len() {
        return Err(DefinitionError::MoreOptionsThanArguments);
    }
    if m.info.options.len() < pos.len() {
        return Err(DefinitionError::ArgumentWithoutOption);
    }
    let mut options: Vec<OptionDescriptor> = Vec::new();
    let mut i: usize = 0;
    while i < pos.len()
        invariant
            b == bindable(m.params@, context_name(m.info)),
            os == m.info.options@,
            pos@.len() == b.len(),
            os.len() == b.len(),
            options_error_from(os, b, 0) == options_error_from(os, b, i as int),
            params_error_from(m.params@, 0) is None,
            m.info.description@.len() > 0,
            forall|k: int|
                0 <= k < pos@.len() ==> (#[trigger] pos@[k]) < m.params@.len()
                    && m.params@[pos@[k] as int] == b[k],
            i <= pos@.len(),
            options@.len() == i,
            forall|k: int|
                0 <= k < i ==> describes_option(#[trigger] options@[k], os[k], b[k])
                    && options@[k].wf() && option_valid(os[k], b[k]),
        decreases pos@.len() - i,
    {
        let d = match option_descriptor(&m.info.options[i], &m.params[pos[i]]) {
            Ok(d) => d,
            Err(e) => {
                assert(option_error(os[i as int], b[i as int]) == Some(e));
                assert(options_error_from(os, b, i as int) == Some(e));
                assert(!option_valid(m.info.options@[i as int], b[i as int]));
                return Err(e);
            },
        };
        options.push(d);
        i = i + 1;
    }
    assert forall|x: int, y: int|
        0 <= x < os.len() && 0 <= y < os.len() && x != y implies (option_name(os[x], b[x])
        != option_name(os[y], b[y])) == (#[trigger] options@[x].name@ != #[trigger] options@[y].name@) by {
        assert(describes_option(options@[x], os[x], b[x]));
        assert(describes_option(options@[y], os[y], b[y]));
    }
    if !names_distinct(&options) {
        assert(!option_names_distinct(*m));
        return Err(DefinitionError::DuplicateOptionName);
    }
    assert forall|x: int, y: int|
        0 <= x < os.len() && 0 <= y < os.len() && x != y implies #[trigger] option_name(os[x], b[x])
        != #[trigger] option_name(os[y], b[y]) by {
        assert(describes_option(options@[x], os[x], b[x]));
        assert(describes_option(options@[y], os[y], b[y]));
        assert(options@[x].name@ != options@[y].name@);
    }
    assert(option_names_distinct(*m));
    let name = match &m.info.name {
        Some(n) => n.clone(),
        None => m.ident.clone(),
    };
    let kind = match &cfg.sub {
        Some(g) => CommandKind::Sub(g.clone()),
        None => CommandKind::Root,
    };
    let d = CommandDescriptor { name, description: m.info.description.clone(), options, kind };
    assert(forall|k: int| 0 <= k < d.options@.len() ==> #[trigger] d.options@[k].wf());
    assert forall|k: int| 0 <= k < b.len() implies option_valid(#[trigger] m.info.options@[k], b[k]) by {
        assert(describes_option(options@[k], os[k], b[k]));
    }
    Ok(d)
}

/// A controller definition with settings `cfg` and methods `methods` is valid.
pub open spec fn controller_valid(cfg: ControllerConfig, methods: Seq<HandlerMethod>) -> bool {
    &&& config_valid(cfg)
    &&& forall|i: int| 0 <= i < methods.len() ==> method_valid(#[trigger] methods[i])
}

/// `d` is the parent command of the subcommand group that settings `cfg`
/// declare.
pub open spec fn describes_group(d: CommandDescriptor, cfg: ControllerConfig) -> bool {
    &&& cfg.sub matches Some(g) && d.name == g
    &&& cfg.sub_description matches Some(desc) && d.description == desc
    &&& d.options@.len() == 0
    &&& d.kind is Group
}

/// `ds` is what a controller with settings `cfg` and methods `methods`
/// declares: the group's parent first when `cfg` declares a group, then one
/// command for each method, in order.
pub open spec fn describes_controller(
    ds: Seq<CommandDescriptor>,
    cfg: ControllerConfig,
    methods: Seq<HandlerMethod>,
) -> bool {
    let off: int = if cfg.sub is Some {
        1
    } else {
        0
    };
    &&& ds.len() == methods.len() + off
    &&& cfg.sub is Some ==> describes_group(ds[0], cfg)
    &&& forall|i: int|
        0 <= i < methods.len() ==> describes_method(#[trigger] ds[i + off], methods[i], cfg)
}

/// Derives the commands that a controller declares, after checking its
/// whole definition.
pub fn command_controller(config: &ControllerConfig, methods: &Vec<HandlerMethod>) -> (r: Result<
    Vec<CommandDescriptor>,
    DefinitionError,
>)
    ensures
        r is Ok <==> controller_valid(*config, methods@),
        r matches Ok(ds) ==> describes_controller(ds@, *config, methods@) && forall|i: int|
            0 <= i < ds@.len() ==> (#[trigger] ds@[i]).wf(),
        match r {
            Ok(_) => controller_error(*config, methods@) is None,
            Err(e) => controller_error(*config, methods@) == Some(e),
        },
{
    match check_config(config) {
        Ok(()) => {},
        Err(e) => {
            return Err(e);
        },
    }
    let mut ds: Vec<CommandDescriptor> = Vec::new();
    let ghost off: int = 0;
    match &config.sub {
        Some(g) => {
            let desc = match &config.sub_description {
                Some(d) => d.clone(),
                None => String::new(),
            };
            ds.push(
                CommandDescriptor {
                    name: g.clone(),
                    description: desc,
                    options: Vec::new(),
                    kind: CommandKind::Group,
                },
            );
            proof {
                off = 1;
            }
        },
        None => {},
    }
    assert(off == if config.sub is Some {
        1int
    } else {
        0int
    });
    let mut i: usize = 0;
    while i < methods.len()
        invariant
            config_valid(*config),
            off == if config.sub is Some {
                1int
            } else {
                0int
            },
            i <= methods@.len(),
            config_error(*config) is None,
            methods_error_from(methods@, 0) == methods_error_from(methods@, i as int),
            ds@.len() == i + off,
            config.sub is Some ==> describes_group(ds@[0], *config),
            forall|k: int| 0 <= k < ds@.len() ==> (#[trigger] ds@[k]).wf(),
            forall|k: int|
                0 <= k < i ==> describes_method(#[trigger] ds@[k + off], methods@[k], *config)
                    && method_valid(methods@[k]),
        decreases methods@.len() - i,
    {
        let d = match compile_method(&methods[i], config) {
            Ok(d) => d,
            Err(e) => {
                assert(method_error(methods@[i as int]) == Some(e));
                return Err(e);
            },
        };
        let ghost prev = ds@;
        ds.push(d);
        proof {
            assert forall|k: int| 0 <= k < i + 1 implies describes_method(
                #[trigger] ds@[k + off],
                methods@[k],
                *config,
            ) && method_valid(methods@[k]) by {
                if k < i {
                    assert(ds@[k + off] == prev[k + off]);
                }
            }
        }
        i = i + 1;
    }
    assert forall|k: int| 0 <= k < methods@.len() implies method_valid(#[trigger] methods@[k]) by {
        assert(describes_method(ds@[k + off], methods@[k], *config));
    }
    Ok(ds)
}

/// Builds the annotation of a handler method.
pub fn command(
    name: Option<String>,
    description: String,
    options: Vec<OptionInfo>,
    interaction: Option<String>,
) -> (r: CommandInfo)
    ensures
        r == (CommandInfo { name, description, options, interaction }),
{
    CommandInfo { name, description, options, interaction }
}

/// A group of handler methods that declares commands together.
pub trait CommandController {
    /// The controller's settings and its handler methods.
    fn definition() -> (ControllerConfig, Vec<HandlerMethod>);

    /// The commands that the controller declares, derived from its
    /// definition.
    fn build_commands() -> (r: Result<Vec<CommandDescriptor>, DefinitionError>)
        ensures
            r matches Ok(ds) ==> forall|i: int| 0 <= i < ds@.len() ==> (#[trigger] ds@[i]).wf(),
    {
        let (config, methods) = Self::definition();
        command_controller(&config, &methods)
    }
}

} // verus!
