//! The decisions behind the `worker` and `tauri_web` entry-point attributes:
//! which attribute arguments they accept, the worker's name, the names that
//! wire a worker to the main thread, and the error each refusal reports.
use vstd::prelude::*;
use vstd::string::StringExecFns;

verus! {

/// The literal given as an attribute's value.
pub enum LitValue {
    /// A string literal, by its value.
    Str(String),
    /// A literal the parser kept verbatim, by its text.
    Verbatim(String),
    /// Any other literal.
    Other,
}

/// One argument of an entry-point attribute.
pub enum AttrArg {
    /// `path = value`; `ident` is `None` when the path is not a single
    /// identifier, `value` is `None` when the value is not a literal.
    NameValue { ident: Option<String>, value: Option<LitValue> },
    /// A bare path; `ident` as above.
    Path { ident: Option<String> },
    /// A list, `path(...)`.
    List,
}

/// Where the compiler points when it reports a refusal.
#[derive(PartialEq, Eq, Structural, Debug)]
pub enum ErrorSite {
    /// The attribute as a whole.
    CallSite,
    /// The name of the function the attribute is on.
    FnName,
    /// The `fn` keyword of that function.
    FnToken,
    /// The argument at this position.
    Arg(usize),
    /// The value of the argument at this position.
    ArgValue(usize),
}

/// A refusal: where it points and what it says.
pub struct ConfigError {
    pub site: ErrorSite,
    pub message: String,
}

/// A worker entry point's settled configuration.
pub struct FinalWorkerConfig {
    pub name: String,
}

/// The configuration a refused worker entry point is expanded with, so that
/// the rest of the expansion still compiles beside the error.
pub fn fallback_worker_config() -> (c: FinalWorkerConfig)
    ensures
        c.name@ == "rồi"@,
{
    FinalWorkerConfig { name: String::from_str("rồi") }
}

/// Name of the lower-case form of `s` (std's `to_lowercase`) beyond ASCII.
pub uninterp spec fn lowercase(s: Seq<char>) -> Seq<char>;

/// Every character of `s` is ASCII.
pub open spec fn is_ascii_text(s: Seq<char>) -> bool {
    forall|i: int| 0 <= i < s.len() ==> (#[trigger] s[i] as u32) < 128
}

/// The lower-case form of an ASCII character: `A`..=`Z` become `a`..=`z`,
/// every other character stays.
pub open spec fn ascii_lower_char(c: char) -> char {
    if 'A' <= c && c <= 'Z' {
        ((c as u32) + 32) as char
    } else {
        c
    }
}

/// Each character of `s` lowered on its own, as for ASCII text.
pub open spec fn ascii_lower(s: Seq<char>) -> Seq<char> {
    Seq::new(s.len(), |i: int| ascii_lower_char(s[i]))
}

/// The lower-case form of `s`: for ASCII text, each character lowered on its
/// own; beyond ASCII, Unicode's mapping, named `lowercase`.
pub open spec fn lower_case(s: Seq<char>) -> Seq<char> {
    if is_ascii_text(s) {
        ascii_lower(s)
    } else {
        lowercase(s)
    }
}

/// `str::to_lowercase`. Claimed: the result is a function of the characters
/// of `s` alone (Unicode's lower-case mapping, no locale), and, as std
/// documents for ASCII, an ASCII text has each `A`..=`Z` lowered and every
/// other character kept.
#[verifier::external_body]
fn to_lowercase(s: &str) -> (r: String)
    ensures
        is_ascii_text(s@) ==> r@ == ascii_lower(s@),
        !is_ascii_text(s@) ==> r@ == lowercase(s@),
{
    s.to_lowercase()
}

pub open spec fn unknown_attribute_message(name: Seq<char>) -> Seq<char> {
    "Unknown attribute "@ + name + " is specified; expected one of: `name`"@
}

pub open spec fn missing_name_message() -> Seq<char> {
    "A `name` is required to wire workers up to the main thread. Use `#[tuber::worker(name = \"rồi\")]`"@
}

pub open spec fn lit_value_view(lit: LitValue) -> Option<Seq<char>> {
    match lit {
        LitValue::Str(s) => Some(s@),
        LitValue::Verbatim(s) => Some(s@),
        LitValue::Other => None,
    }
}

/// What the argument at position `i` does to the name found so far.
pub open spec fn arg_step(arg: AttrArg, i: int, name: Option<Seq<char>>) -> Result<Option<Seq<char>>, (ErrorSite, Seq<char>)> {
    match arg {
        AttrArg::NameValue { ident, value } => match ident {
            None => Err((ErrorSite::Arg(i as usize), "Must have specified ident"@)),
            Some(id) => match value {
                None => Err((ErrorSite::ArgValue(i as usize), "Must be a literal"@)),
                Some(lit) => if lower_case(id@) == "name"@ {
                    if name is Some {
                        Err((ErrorSite::ArgValue(i as usize), "`name` set multiple times."@))
                    } else {
                        match lit_value_view(lit) {
                            Some(s) => Ok(Some(s)),
                            None => Err((ErrorSite::ArgValue(i as usize), "Failed to parse value of `name` as string."@)),
                        }
                    }
                } else {
                    Err((ErrorSite::Arg(i as usize), unknown_attribute_message(lower_case(id@))))
                },
            },
        },
        AttrArg::Path { ident } => match ident {
            None => Err((ErrorSite::Arg(i as usize), "Must have specified ident"@)),
            Some(id) => if lower_case(id@) == "name"@ {
                Err((ErrorSite::Arg(i as usize), "The `name` attribute requires an argument."@))
            } else {
                Err((ErrorSite::Arg(i as usize), unknown_attribute_message(lower_case(id@))))
            },
        },
        AttrArg::List => Err((ErrorSite::Arg(i as usize), "Unknown attribute inside the macro"@)),
    }
}

/// The arguments from position `i` on, applied in order to the name found so far.
pub open spec fn scan_args(args: Seq<AttrArg>, i: int, name: Option<Seq<char>>) -> Result<Option<Seq<char>>, (ErrorSite, Seq<char>)>
    decreases args.len() - i,
{
    if i < 0 || i >= args.len() {
        Ok(name)
    } else {
        match arg_step(args[i], i, name) {
            Ok(n) => scan_args(args, i + 1, n),
            Err(e) => Err(e),
        }
    }
}

/// The configuration of a worker entry point, or its first refusal.
pub open spec fn worker_config(is_async: bool, args: Seq<AttrArg>) -> Result<Seq<char>, (ErrorSite, Seq<char>)> {
    if !is_async {
        Err((ErrorSite::FnToken, "the `async` keyword is missing from the function declaration"@))
    } else {
        match scan_args(args, 0, None) {
            Err(e) => Err(e),
            Ok(None) => Err((ErrorSite::CallSite, missing_name_message())),
            Ok(Some(n)) => Ok(n),
        }
    }
}

pub open spec fn name_view(name: Option<String>) -> Option<Seq<char>> {
    match name {
        Some(s) => Some(s@),
        None => None,
    }
}

pub open spec fn config_error_view(e: ConfigError) -> (ErrorSite, Seq<char>) {
    (e.site, e.message@)
}

fn error_at(site: ErrorSite, message: &str) -> (e: ConfigError)
    ensures
        e.site == site,
        e.message@ == message@,
{
    ConfigError { site, message: String::from_str(message) }
}

fn unknown_attribute(site: ErrorSite, name: &String) -> (e: ConfigError)
    ensures
        e.site == site,
        e.message@ == unknown_attribute_message(name@),
{
    let mut m = String::from_str("Unknown attribute ");
    m.append(name.as_str());
    m.append(" is specified; expected one of: `name`");
    ConfigError { site, message: m }
}

/// What the argument at position `i` does to the name found so far (see `arg_step`).
fn apply_arg(arg: &AttrArg, i: usize, name: &mut Option<String>) -> (r: Result<(), ConfigError>)
    ensures
        (match arg_step(*arg, i as int, name_view(*old(name))) {
            Ok(n) => r is Ok && name_view(*final(name)) == n,
            Err(e) => (r matches Err(c) && config_error_view(c) == e),
        }),
{
    proof {
        reveal_strlit("name");
    }
    match arg {
        AttrArg::NameValue { ident, value } => match ident {
            None => Err(error_at(ErrorSite::Arg(i), "Must have specified ident")),
            Some(id) => match value {
                None => Err(error_at(ErrorSite::ArgValue(i), "Must be a literal")),
                Some(lit) => {
                    let lower = to_lowercase(id.as_str());
                    if lower == String::from_str("name") {
                        if name.is_some() {
                            Err(error_at(ErrorSite::ArgValue(i), "`name` set multiple times."))
                        } else {
                            match lit {
                                LitValue::Str(s) => {
                                    *name = Some(s.clone());
                                    Ok(())
                                },
                                LitValue::Verbatim(s) => {
                                    *name = Some(s.clone());
                                    Ok(())
                                },
                                LitValue::Other => Err(error_at(
                                    ErrorSite::ArgValue(i),
                                    "Failed to parse value of `name` as string.",
                                )),
                            }
                        }
                    } else {
                        Err(unknown_attribute(ErrorSite::Arg(i), &lower))
                    }
                },
            },
        },
        AttrArg::Path { ident } => match ident {
            None => Err(error_at(ErrorSite::Arg(i), "Must have specified ident")),
            Some(id) => {
                let lower = to_lowercase(id.as_str());
                if lower == String::from_str("name") {
                    Err(error_at(ErrorSite::Arg(i), "The `name` attribute requires an argument."))
                } else {
                    Err(unknown_attribute(ErrorSite::Arg(i), &lower))
                }
            },
        },
        AttrArg::List => Err(error_at(ErrorSite::Arg(i), "Unknown attribute inside the macro")),
    }
}

/// Settles a worker entry point's configuration from whether the function is
/// `async` and from the attribute's arguments, or gives its first refusal.
pub fn build_worker_config(is_async: bool, args: &Vec<AttrArg>) -> (r: Result<FinalWorkerConfig, ConfigError>)
    ensures
        (match worker_config(is_async, args@) {
            Ok(n) => (r matches Ok(c) && c.name@ == n),
            Err(e) => (r matches Err(c) && config_error_view(c) == e),
        }),
{
    if !is_async {
        return Err(error_at(
            ErrorSite::FnToken,
            "the `async` keyword is missing from the function declaration",
        ));
    }
    let mut name: Option<String> = None;
    let mut i: usize = 0;
    while i < args.len()
        invariant
            is_async,
            i <= args@.len(),
            scan_args(args@, 0, None) == scan_args(args@, i as int, name_view(name)),
        decreases args@.len() - i,
    {
        let ghost before = name_view(name);
        let r = apply_arg(&args[i], i, &mut name);
        match r {
            Ok(()) => {},
            Err(e) => {
                assert(scan_args(args@, i as int, before) == arg_step(args@[i as int], i as int, before));
                return Err(e);
            },
        }
        i = i + 1;
    }
    match name {
        Some(n) => Ok(FinalWorkerConfig { name: n }),
        None => Err(error_at(
            ErrorSite::CallSite,
            "A `name` is required to wire workers up to the main thread. Use `#[tuber::worker(name = \"rồi\")]`",
        )),
    }
}

/// The two entry-point attributes.
#[derive(PartialEq, Eq, Structural, Debug, Clone, Copy)]
pub enum EntryKind {
    Worker,
    TauriWeb,
}

pub open spec fn missing_tube_message(kind: EntryKind) -> Seq<char> {
    match kind {
        EntryKind::Worker => "tuber::worker entrypoint must accept a single `Tube<In, Out>` as argument"@,
        EntryKind::TauriWeb => "tuber::tauri_web entrypoint must accept a single `Tube<In, Out>` as argument"@,
    }
}

/// The refusal of an entry point whose first parameter is not a typed
/// `Tube<In, Out>` binding; it points at the function's name.
pub fn missing_tube_argument(kind: EntryKind) -> (e: ConfigError)
    ensures
        config_error_view(e) == (ErrorSite::FnName, missing_tube_message(kind)),
{
    match kind {
        EntryKind::Worker => error_at(
            ErrorSite::FnName,
            "tuber::worker entrypoint must accept a single `Tube<In, Out>` as argument",
        ),
        EntryKind::TauriWeb => error_at(
            ErrorSite::FnName,
            "tuber::tauri_web entrypoint must accept a single `Tube<In, Out>` as argument",
        ),
    }
}

/// The `tauri_web` attribute takes no arguments: the first one is refused.
pub fn build_tauri_config(args: &Vec<AttrArg>) -> (r: Result<(), ConfigError>)
    ensures
        r is Ok <==> args@.len() == 0,
        r matches Err(c) ==> config_error_view(c) == (ErrorSite::Arg(0), "Unknown attribute inside the macro"@),
{
    if args.len() == 0 {
        Ok(())
    } else {
        Err(error_at(ErrorSite::Arg(0), "Unknown attribute inside the macro"))
    }
}

/// The JavaScript name of the entry point of the worker called `name`.
pub open spec fn entrypoint_name(name: Seq<char>) -> Seq<char> {
    "__tuber_worker_entrypoint_"@ + name
}

/// The JavaScript name of the entry point of the worker called `name`.
pub fn worker_entrypoint_name(name: &str) -> (r: String)
    ensures
        r@ == entrypoint_name(name@),
        r@ == "__tuber_worker_entrypoint_"@ + name@,
{
    let mut r = String::from_str("__tuber_worker_entrypoint_");
    r.append(name);
    r
}

/// A worker attribute whose only argument is `name = "<text>"` (the key in any
/// case) on an `async` function is accepted and names the worker `<text>`.
pub proof fn lemma_single_name_argument(key: String, text: String)
    requires
        lower_case(key@) == "name"@,
    ensures
        worker_config(true, seq![AttrArg::NameValue { ident: Some(key), value: Some(LitValue::Str(text)) }])
            == Ok::<Seq<char>, (ErrorSite, Seq<char>)>(text@),
{
    let args = seq![AttrArg::NameValue { ident: Some(key), value: Some(LitValue::Str(text)) }];
    assert(arg_step(args[0], 0, None) == Ok::<Option<Seq<char>>, (ErrorSite, Seq<char>)>(Some(text@)));
    assert(scan_args(args, 1, Some(text@)) == Ok::<Option<Seq<char>>, (ErrorSite, Seq<char>)>(Some(text@)));
}

/// The name may be given once: a second `name = ..` argument is refused, at
/// its value, whatever came before it.
pub proof fn lemma_name_given_once(args: Seq<AttrArg>, i: int, key: String, lit: LitValue)
    requires
        0 <= i < args.len(),
        args[i] == (AttrArg::NameValue { ident: Some(key), value: Some(lit) }),
        lower_case(key@) == "name"@,
    ensures
        forall|name: Seq<char>|
            #[trigger] arg_step(args[i], i, Some(name))
                == Err::<Option<Seq<char>>, (ErrorSite, Seq<char>)>((ErrorSite::ArgValue(i as usize), "`name` set multiple times."@)),
{
}

/// The `name` key is recognised in any ASCII case: a 4-letter key whose
/// every letter is that of `name` in lower or upper case lowers to `name`.
pub proof fn lemma_name_key_any_case(key: Seq<char>)
    requires
        key.len() == 4,
        forall|i: int| 0 <= i < 4 ==> #[trigger] key[i] == "name"@[i] || key[i] == "NAME"@[i],
    ensures
        lower_case(key) == "name"@,
{
    reveal_strlit("name");
    reveal_strlit("NAME");
    assert(key[0] == 'n' || key[0] == 'N');
    assert(key[1] == 'a' || key[1] == 'A');
    assert(key[2] == 'm' || key[2] == 'M');
    assert(key[3] == 'e' || key[3] == 'E');
    assert(is_ascii_text(key));
    assert(lower_case(key) =~= "name"@);
}

/// A worker's entry-point name spells out the whole worker name: the fixed
/// 26-character prefix `__tuber_worker_entrypoint_`, then every character of
/// the name, so the name is read back from it and no two names share one.
pub proof fn lemma_entrypoint_name_spells_name(name: Seq<char>, other: Seq<char>)
    ensures
        entrypoint_name(name) == "__tuber_worker_entrypoint_"@ + name,
        entrypoint_name(name).len() == 26 + name.len(),
        entrypoint_name(name).skip(26) == name,
        entrypoint_name(name) == entrypoint_name(other) ==> name == other,
{
    reveal_strlit("__tuber_worker_entrypoint_");
    assert(("__tuber_worker_entrypoint_"@ + name).skip(26) =~= name);
    assert(("__tuber_worker_entrypoint_"@ + other).skip(26) =~= other);
}

/// The only argument a worker attribute accepts is a first `name = "<text>"`
/// (the key in any case, the value a string or verbatim literal), and it
/// names the worker `<text>`; anything else, and any argument once the name
/// is set, is refused.
pub proof fn lemma_only_a_first_name_is_accepted(arg: AttrArg, i: int, name: Option<Seq<char>>)
    ensures
        arg_step(arg, i, name) is Ok ==> name is None && (match arg {
            AttrArg::NameValue { ident: Some(id), value: Some(LitValue::Str(s)) } =>
                lower_case(id@) == "name"@ && arg_step(arg, i, name) == Ok::<Option<Seq<char>>, (ErrorSite, Seq<char>)>(Some(s@)),
            AttrArg::NameValue { ident: Some(id), value: Some(LitValue::Verbatim(s)) } =>
                lower_case(id@) == "name"@ && arg_step(arg, i, name) == Ok::<Option<Seq<char>>, (ErrorSite, Seq<char>)>(Some(s@)),
            _ => false,
        }),
{
}

/// A `key = value` argument whose key does not lower-case to `name` is
/// refused wherever it stands and whatever came before it, at the argument,
/// naming the key in lower case.
pub proof fn lemma_unknown_key_refused(id: String, value: Option<LitValue>, i: int, name: Option<Seq<char>>)
    requires
        lower_case(id@) != "name"@,
        value is Some,
    ensures
        arg_step(AttrArg::NameValue { ident: Some(id), value }, i, name)
            == Err::<Option<Seq<char>>, (ErrorSite, Seq<char>)>((ErrorSite::Arg(i as usize),
                "Unknown attribute "@ + lower_case(id@) + " is specified; expected one of: `name`"@)),
{
}

/// A bare path argument is refused wherever it stands and whatever came
/// before it.
pub proof fn lemma_bare_path_refused(ident: Option<String>, i: int, name: Option<Seq<char>>)
    ensures
        arg_step(AttrArg::Path { ident }, i, name) is Err,
        arg_step(AttrArg::Path { ident }, i, name) matches Err((site, _)) && site == ErrorSite::Arg(i as usize),
{
}

/// An argument that is refused whatever came before it makes the whole
/// scan from any earlier position fail.
proof fn lemma_scan_hits_refusal(args: Seq<AttrArg>, j: int, name: Option<Seq<char>>, i: int)
    requires
        0 <= j <= i < args.len(),
        forall|n: Option<Seq<char>>| #[trigger] arg_step(args[i], i, n) is Err,
    ensures
        scan_args(args, j, name) is Err,
    decreases i - j,
{
    if j < i {
        if let Ok(n) = arg_step(args[j], j, name) {
            lemma_scan_hits_refusal(args, j + 1, n, i);
        }
    } else {
        assert(arg_step(args[i], i, name) is Err);
    }
}

/// A worker attribute with an unknown `key = value` argument anywhere is refused.
pub proof fn lemma_unknown_key_anywhere_refused(is_async: bool, args: Seq<AttrArg>, i: int, id: String, value: Option<LitValue>)
    requires
        0 <= i < args.len(),
        args[i] == (AttrArg::NameValue { ident: Some(id), value }),
        value is Some,
        lower_case(id@) != "name"@,
    ensures
        worker_config(is_async, args) is Err,
{
    assert forall|n: Option<Seq<char>>| #[trigger] arg_step(args[i], i, n) is Err by {
        lemma_unknown_key_refused(id, value, i, n);
    }
    lemma_scan_hits_refusal(args, 0, None, i);
}

/// A worker attribute with a bare path argument anywhere is refused.
pub proof fn lemma_bare_path_anywhere_refused(is_async: bool, args: Seq<AttrArg>, i: int, ident: Option<String>)
    requires
        0 <= i < args.len(),
        args[i] == (AttrArg::Path { ident }),
    ensures
        worker_config(is_async, args) is Err,
{
    assert forall|n: Option<Seq<char>>| #[trigger] arg_step(args[i], i, n) is Err by {
        lemma_bare_path_refused(ident, i, n);
    }
    lemma_scan_hits_refusal(args, 0, None, i);
}

/// A worker attribute is accepted only on an `async` function with exactly
/// one argument, a `name = "<text>"` with the key in any case, and the
/// worker is then named `<text>`.
pub proof fn lemma_accepted_config_is_one_name(is_async: bool, args: Seq<AttrArg>)
    ensures
        worker_config(is_async, args) matches Ok(n) ==> is_async && args.len() == 1 && (match args[0] {
            AttrArg::NameValue { ident: Some(id), value: Some(LitValue::Str(s)) } => lower_case(id@) == "name"@ && n == s@,
            AttrArg::NameValue { ident: Some(id), value: Some(LitValue::Verbatim(s)) } => lower_case(id@) == "name"@ && n == s@,
            _ => false,
        }),
{
    if is_async && args.len() > 0 {
        lemma_only_a_first_name_is_accepted(args[0], 0, None);
        if let Ok(n1) = arg_step(args[0], 0, None) {
            if args.len() > 1 {
                lemma_only_a_first_name_is_accepted(args[1], 1, n1);
                assert(scan_args(args, 1, n1) is Err);
            } else {
                assert(scan_args(args, 1, n1) == Ok::<Option<Seq<char>>, (ErrorSite, Seq<char>)>(n1));
            }
        }
    }
}

} // verus!
