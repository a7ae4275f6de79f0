//! Per-model overrides of the backend's command line, and how they are stored.
use vstd::prelude::*;
use vstd::string::StringExecFns;
use crate::json::{
    distinct_keys, entry_views, is_integer_text, drops_strings, json_read, json_views, lookup,
    lacks_key, names_key, nested_at_most, no_fields, parse, raw_key, readable, record_text,
    repeats_a_key, same_json, text_has_key, text_views,
    to_record_text, Json, JsonView,
    ObjectBuilder, READ_DEPTH,
};
use crate::text::{
    cat, dec, dec_int, dec_text, digit, digits_value, has_prefix, number_value, opt_view,
    parse_unsigned, starts_with, str_eq, views, NumberError,
};

verus! {

/// The greatest cache size.
pub const MAX_CACHE_RAM_MIB: u32 = 16384;

/// The greatest number of context checkpoints.
pub const MAX_CTX_CHECKPOINTS: u32 = 128;

/// The greatest reuse threshold.
pub const MAX_CACHE_REUSE: u32 = 8192;

/// The part of the backend's command line that users may set. What is not set is left to the
/// backend.
#[derive(Debug, Clone, PartialEq, Eq)]
pub struct ModelRuntimeOverrides {
    /// `--cache-ram`: the cache budget in MiB; zero turns the prompt cache off.
    pub cache_ram_mib: Option<u32>,
    /// `--swa-full`.
    pub swa_full: Option<bool>,
    /// `-ctxcp`: the number of context checkpoints.
    pub ctx_checkpoints: Option<u32>,
    /// `--cache-reuse`: the least prefix to reuse.
    pub cache_reuse: Option<u32>,
    /// Further arguments, appended last.
    pub extra: Vec<String>,
}

/// The model of the overrides.
#[verifier::ext_equal]
pub struct OverridesView {
    pub cache_ram_mib: Option<u32>,
    pub swa_full: Option<bool>,
    pub ctx_checkpoints: Option<u32>,
    pub cache_reuse: Option<u32>,
    pub extra: Seq<Seq<char>>,
}

impl View for ModelRuntimeOverrides {
    type V = OverridesView;

    open spec fn view(&self) -> OverridesView {
        OverridesView {
            cache_ram_mib: self.cache_ram_mib,
            swa_full: self.swa_full,
            ctx_checkpoints: self.ctx_checkpoints,
            cache_reuse: self.cache_reuse,
            extra: views(self.extra@),
        }
    }
}

/// Nothing set.
pub open spec fn no_overrides() -> OverridesView {
    OverridesView {
        cache_ram_mib: None,
        swa_full: None,
        ctx_checkpoints: None,
        cache_reuse: None,
        extra: Seq::empty(),
    }
}

impl Default for ModelRuntimeOverrides {
    fn default() -> (r: ModelRuntimeOverrides)
        ensures
            r@ == no_overrides(),
    {
        let r = ModelRuntimeOverrides {
            cache_ram_mib: None,
            swa_full: None,
            ctx_checkpoints: None,
            cache_reuse: None,
            extra: Vec::new(),
        };
        assert(views(r.extra@) =~= Seq::empty());
        r
    }
}

/// A flag and its number, where there is one.
pub open spec fn number_flag(flag: Seq<char>, n: Option<u32>) -> Seq<Seq<char>> {
    match n {
        Some(n) => Seq::empty().push(flag).push(dec(n as nat)),
        None => Seq::empty(),
    }
}

/// The command line for the overrides.
pub open spec fn cli_args(v: OverridesView) -> Seq<Seq<char>> {
    number_flag("--cache-ram"@, v.cache_ram_mib) + (if v.swa_full == Some(true) {
        Seq::empty().push("--swa-full"@)
    } else {
        Seq::empty()
    }) + number_flag("-ctxcp"@, v.ctx_checkpoints) + number_flag("--cache-reuse"@, v.cache_reuse)
        + v.extra
}

/// Whether `entry` sets `flag`: it is the flag itself, or the flag with an equals sign and a value.
pub open spec fn sets_flag(entry: Seq<char>, flag: Seq<char>) -> bool {
    entry == flag || has_prefix(entry, flag + "="@)
}

/// Whether an argument sets a flag that is not the user's to set.
pub open spec fn is_reserved(entry: Seq<char>) -> bool {
    ||| sets_flag(entry, "--model"@)
    ||| sets_flag(entry, "--host"@)
    ||| sets_flag(entry, "--port"@)
    ||| sets_flag(entry, "--api-key"@)
    ||| sets_flag(entry, "-ngl"@)
    ||| sets_flag(entry, "-c"@)
    ||| sets_flag(entry, "-np"@)
}

/// Whether a number is above its greatest value.
pub open spec fn over(n: Option<u32>, max: u32) -> bool {
    n is Some && n->0 > max
}

/// What is said of a number above its greatest value.
pub open spec fn over_text(name: Seq<char>, n: Option<u32>, max: Seq<char>) -> Seq<char> {
    name + " "@ + dec(n->0 as nat) + " exceeds maximum "@ + max
}

/// The first reserved argument.
pub open spec fn first_reserved(extra: Seq<Seq<char>>) -> Option<Seq<char>>
    decreases extra.len(),
{
    if extra.len() == 0 {
        None
    } else if is_reserved(extra[0]) {
        Some(extra[0])
    } else {
        first_reserved(extra.skip(1))
    }
}

/// Why the overrides are not accepted; `None` where they are.
pub open spec fn overrides_error(v: OverridesView) -> Option<Seq<char>> {
    if over(v.cache_ram_mib, MAX_CACHE_RAM_MIB) {
        Some(over_text("cache_ram_mib"@, v.cache_ram_mib, dec(MAX_CACHE_RAM_MIB as nat)))
    } else if over(v.ctx_checkpoints, MAX_CTX_CHECKPOINTS) {
        Some(over_text("ctx_checkpoints"@, v.ctx_checkpoints, dec(MAX_CTX_CHECKPOINTS as nat)))
    } else if over(v.cache_reuse, MAX_CACHE_REUSE) {
        Some(over_text("cache_reuse"@, v.cache_reuse, dec(MAX_CACHE_REUSE as nat)))
    } else {
        match first_reserved(v.extra) {
            Some(entry) => Some("extra argument '"@ + entry + "' is reserved by the proxy"@),
            None => None,
        }
    }
}

/// Appends a flag and its number, where there is one.
fn push_number_flag(out: &mut Vec<String>, flag: &str, n: Option<u32>)
    ensures
        views(final(out)@) == views(old(out)@) + number_flag(flag@, n),
{
    if let Some(n) = n {
        out.push(flag.to_owned());
        out.push(dec_text(n as u128));
    }
    assert(views(out@) =~= views(old(out)@) + number_flag(flag@, n));
}

/// Whether `entry` sets `flag`.
fn entry_sets(entry: &str, flag: &str) -> (r: bool)
    ensures
        r == sets_flag(entry@, flag@),
{
    let with_value = cat(flag, "=");
    str_eq(entry, flag) || starts_with(entry, &with_value)
}

/// Whether an argument sets a flag that is not the user's to set.
fn entry_reserved(entry: &str) -> (r: bool)
    ensures
        r == is_reserved(entry@),
{
    entry_sets(entry, "--model") || entry_sets(entry, "--host") || entry_sets(entry, "--port")
        || entry_sets(entry, "--api-key") || entry_sets(entry, "-ngl") || entry_sets(entry, "-c")
        || entry_sets(entry, "-np")
}

/// What is said of a number above its greatest value.
fn over_message(name: &str, n: u32, max: u32) -> (r: String)
    ensures
        r@ == over_text(name@, Some(n), dec(max as nat)),
{
    name.to_owned().concat(" ").concat(&dec_text(n as u128)).concat(" exceeds maximum ").concat(
        &dec_text(max as u128),
    )
}

impl ModelRuntimeOverrides {
    /// The command line for the overrides: `--cache-ram`, `--swa-full`, `-ctxcp`, `--cache-reuse`,
    /// then the further arguments.
    pub fn to_cli_args(&self) -> (r: Vec<String>)
        ensures
            views(r@) == cli_args(self@),
    {
        let mut out: Vec<String> = Vec::new();
        assert(views(out@) =~= Seq::empty());
        push_number_flag(&mut out, "--cache-ram", self.cache_ram_mib);
        assert(Seq::<Seq<char>>::empty() + number_flag("--cache-ram"@, self.cache_ram_mib)
            =~= number_flag("--cache-ram"@, self.cache_ram_mib));
        let swa = match self.swa_full {
            Some(b) => b,
            None => false,
        };
        let ghost before = views(out@);
        if swa {
            out.push("--swa-full".to_owned());
            assert(views(out@) =~= before + Seq::empty().push("--swa-full"@));
        } else {
            assert(before + Seq::<Seq<char>>::empty() =~= before);
        }
        push_number_flag(&mut out, "-ctxcp", self.ctx_checkpoints);
        push_number_flag(&mut out, "--cache-reuse", self.cache_reuse);
        let ghost head = views(out@);
        let mut i: usize = 0;
        let ghost extra = views(self.extra@);
        assert(head + extra.take(0) =~= head);
        while i < self.extra.len()
            invariant
                extra == views(self.extra@),
                i <= self.extra@.len(),
                views(out@) == head + extra.take(i as int),
            decreases self.extra@.len() - i,
        {
            let ghost sofar = views(out@);
            out.push(self.extra[i].clone());
            assert(views(out@) =~= sofar.push(extra[i as int]));
            assert(head + extra.take(i + 1) =~= (head + extra.take(i as int)).push(
                extra[i as int],
            ));
            i += 1;
        }
        assert(extra.take(i as int) =~= extra);
        out
    }

    /// Whether the overrides are acceptable; else the first reason why not.
    pub fn validate(&self) -> (r: Result<(), String>)
        ensures
            match r {
                Ok(_) => overrides_error(self@) is None,
                Err(m) => overrides_error(self@) == Some(m@),
            },
    {
        if let Some(n) = self.cache_ram_mib {
            if n > MAX_CACHE_RAM_MIB {
                return Err(over_message("cache_ram_mib", n, MAX_CACHE_RAM_MIB));
            }
        }
        if let Some(n) = self.ctx_checkpoints {
            if n > MAX_CTX_CHECKPOINTS {
                return Err(over_message("ctx_checkpoints", n, MAX_CTX_CHECKPOINTS));
            }
        }
        if let Some(n) = self.cache_reuse {
            if n > MAX_CACHE_REUSE {
                return Err(over_message("cache_reuse", n, MAX_CACHE_REUSE));
            }
        }
        let ghost extra = views(self.extra@);
        let mut i: usize = 0;
        assert(extra.skip(0) =~= extra);
        while i < self.extra.len()
            invariant
                extra == views(self.extra@),
                i <= self.extra@.len(),
                first_reserved(extra) == first_reserved(extra.skip(i as int)),
                !over(self.cache_ram_mib, MAX_CACHE_RAM_MIB),
                !over(self.ctx_checkpoints, MAX_CTX_CHECKPOINTS),
                !over(self.cache_reuse, MAX_CACHE_REUSE),
            decreases self.extra@.len() - i,
        {
            let ghost rest = extra.skip(i as int);
            assert(rest[0] == self.extra@[i as int]@);
            assert(rest.skip(1) =~= extra.skip(i + 1));
            if entry_reserved(&self.extra[i]) {
                return Err(
                    "extra argument '".to_owned().concat(&self.extra[i]).concat(
                        "' is reserved by the proxy",
                    ),
                );
            }
            i += 1;
        }
        Ok(())
    }
}

/// The command line of accepted overrides leaves the reserved flags alone.
pub proof fn law_accepted_overrides_are_not_reserved(v: OverridesView)
    requires
        overrides_error(v) is None,
    ensures
        forall|i: int| 0 <= i < cli_args(v).len() ==> !is_reserved(#[trigger] cli_args(v)[i]),
{
    lemma_none_reserved(v.extra);
    lemma_own_flags();
    lemma_flag_not_reserved("--cache-ram"@, v.cache_ram_mib);
    lemma_flag_not_reserved("-ctxcp"@, v.ctx_checkpoints);
    lemma_flag_not_reserved("--cache-reuse"@, v.cache_reuse);
    let a = number_flag("--cache-ram"@, v.cache_ram_mib);
    let b = if v.swa_full == Some(true) {
        Seq::empty().push("--swa-full"@)
    } else {
        Seq::empty()
    };
    let c = number_flag("-ctxcp"@, v.ctx_checkpoints);
    let d = number_flag("--cache-reuse"@, v.cache_reuse);
    lemma_joined_not_reserved(a, b);
    lemma_joined_not_reserved(a + b, c);
    lemma_joined_not_reserved(a + b + c, d);
    lemma_joined_not_reserved(a + b + c + d, v.extra);
    assert(none_reserved(cli_args(v)));
}

/// Whether no argument is reserved.
spec fn none_reserved(args: Seq<Seq<char>>) -> bool {
    forall|i: int| 0 <= i < args.len() ==> !is_reserved(#[trigger] args[i])
}

proof fn lemma_joined_not_reserved(a: Seq<Seq<char>>, b: Seq<Seq<char>>)
    requires
        none_reserved(a),
        none_reserved(b),
    ensures
        none_reserved(a + b),
{
    let c = a + b;
    assert forall|i: int| 0 <= i < c.len() implies !is_reserved(#[trigger] c[i]) by {
        if i < a.len() {
            assert(c[i] == a[i]);
        } else {
            assert(c[i] == b[i - a.len()]);
        }
    }
}

/// An argument that differs from a flag within the flag's length does not set it.
proof fn lemma_other_flag(entry: Seq<char>, flag: Seq<char>, i: int)
    requires
        0 <= i < flag.len(),
        i < entry.len() ==> entry[i] != flag[i],
    ensures
        !sets_flag(entry, flag),
{
    if has_prefix(entry, flag + "="@) {
        assert(entry.take((flag + "="@).len() as int)[i] == (flag + "="@)[i]);
    }
}

/// The flags of the overrides themselves are not reserved.
proof fn lemma_own_flags()
    ensures
        !is_reserved("--cache-ram"@),
        !is_reserved("--swa-full"@),
        !is_reserved("-ctxcp"@),
        !is_reserved("--cache-reuse"@),
{
    reveal_strlit("--cache-ram");
    reveal_strlit("--swa-full");
    reveal_strlit("-ctxcp");
    reveal_strlit("--cache-reuse");
    lemma_long_flag("--cache-ram"@);
    lemma_long_flag("--swa-full"@);
    lemma_long_flag("--cache-reuse"@);
    let e = "-ctxcp"@;
    reveal_strlit("--model");
    reveal_strlit("--host");
    reveal_strlit("--port");
    reveal_strlit("--api-key");
    reveal_strlit("-ngl");
    reveal_strlit("-c");
    reveal_strlit("-np");
    reveal_strlit("=");
    lemma_other_flag(e, "--model"@, 1);
    lemma_other_flag(e, "--host"@, 1);
    lemma_other_flag(e, "--port"@, 1);
    lemma_other_flag(e, "--api-key"@, 1);
    lemma_other_flag(e, "-ngl"@, 1);
    lemma_other_flag(e, "-np"@, 1);
    assert("-c"@ + "="@ =~= seq!['-', 'c', '=']);
    if has_prefix(e, "-c"@ + "="@) {
        assert(e.take(3)[2] == ("-c"@ + "="@)[2]);
    }
}

/// A long flag whose name begins with `c` or `s` is not reserved.
proof fn lemma_long_flag(e: Seq<char>)
    requires
        e.len() > 2,
        e[1] == '-',
        e[2] == 'c' || e[2] == 's',
    ensures
        !is_reserved(e),
{
    reveal_strlit("--model");
    reveal_strlit("--host");
    reveal_strlit("--port");
    reveal_strlit("--api-key");
    reveal_strlit("-ngl");
    reveal_strlit("-c");
    reveal_strlit("-np");
    lemma_other_flag(e, "--model"@, 2);
    lemma_other_flag(e, "--host"@, 2);
    lemma_other_flag(e, "--port"@, 2);
    lemma_other_flag(e, "--api-key"@, 2);
    lemma_other_flag(e, "-ngl"@, 1);
    lemma_other_flag(e, "-c"@, 1);
    lemma_other_flag(e, "-np"@, 1);
}

/// A number does not begin with a hyphen.
proof fn lemma_dec_first(n: nat)
    ensures
        dec(n).len() > 0,
        dec(n)[0] != '-',
    decreases n,
{
    if n >= 10 {
        lemma_dec_first(n / 10);
    }
}

/// A flag and its number are not reserved where the flag is not.
proof fn lemma_flag_not_reserved(flag: Seq<char>, n: Option<u32>)
    requires
        !is_reserved(flag),
    ensures
        none_reserved(number_flag(flag, n)),
{
    if let Some(k) = n {
        let e = dec(k as nat);
        lemma_dec_first(k as nat);
        reveal_strlit("--model");
        reveal_strlit("--host");
        reveal_strlit("--port");
        reveal_strlit("--api-key");
        reveal_strlit("-ngl");
        reveal_strlit("-c");
        reveal_strlit("-np");
        lemma_other_flag(e, "--model"@, 0);
        lemma_other_flag(e, "--host"@, 0);
        lemma_other_flag(e, "--port"@, 0);
        lemma_other_flag(e, "--api-key"@, 0);
        lemma_other_flag(e, "-ngl"@, 0);
        lemma_other_flag(e, "-c"@, 0);
        lemma_other_flag(e, "-np"@, 0);
        let f = number_flag(flag, n);
        assert(f[0] == flag && f[1] == e && f.len() == 2);
    }
}

/// Where there is no first reserved argument, there is none.
proof fn lemma_none_reserved(extra: Seq<Seq<char>>)
    requires
        first_reserved(extra) is None,
    ensures
        forall|i: int| 0 <= i < extra.len() ==> !is_reserved(#[trigger] extra[i]),
    decreases extra.len(),
{
    if extra.len() > 0 {
        lemma_none_reserved(extra.skip(1));
        assert forall|i: int| 0 <= i < extra.len() implies !is_reserved(#[trigger] extra[i]) by {
            if i > 0 {
                assert(extra.skip(1)[i - 1] == extra[i]);
            }
        }
    }
}

/// Launch settings that are kept with the overrides, so that a backend can be started again.
#[derive(Debug, Clone, PartialEq, Eq)]
pub struct PersistedLaunchConfig {
    pub gpu_type: Option<String>,
    pub gpu_layers: Option<u32>,
    pub parallel: Option<u32>,
}

/// The model of the launch settings.
pub struct LaunchView {
    pub gpu_type: Option<Seq<char>>,
    pub gpu_layers: Option<u32>,
    pub parallel: Option<u32>,
}

impl View for PersistedLaunchConfig {
    type V = LaunchView;

    open spec fn view(&self) -> LaunchView {
        LaunchView {
            gpu_type: opt_view(self.gpu_type),
            gpu_layers: self.gpu_layers,
            parallel: self.parallel,
        }
    }
}

/// No launch settings.
pub open spec fn no_launch() -> LaunchView {
    LaunchView { gpu_type: None, gpu_layers: None, parallel: None }
}

impl Default for PersistedLaunchConfig {
    fn default() -> (r: PersistedLaunchConfig)
        ensures
            r@ == no_launch(),
    {
        PersistedLaunchConfig { gpu_type: None, gpu_layers: None, parallel: None }
    }
}

/// What is stored of a model's settings: the overrides and the launch settings.
#[derive(Debug, Clone, PartialEq, Eq)]
pub struct WrappedRuntimeJson {
    pub cli: ModelRuntimeOverrides,
    pub launch: PersistedLaunchConfig,
}

/// The model of what is stored.
pub struct WrappedView {
    pub cli: OverridesView,
    pub launch: LaunchView,
}

impl View for WrappedRuntimeJson {
    type V = WrappedView;

    open spec fn view(&self) -> WrappedView {
        WrappedView { cli: self.cli@, launch: self.launch@ }
    }
}

/// Nothing stored.
pub open spec fn nothing_stored() -> WrappedView {
    WrappedView { cli: no_overrides(), launch: no_launch() }
}

impl Default for WrappedRuntimeJson {
    fn default() -> (r: WrappedRuntimeJson)
        ensures
            r@ == nothing_stored(),
    {
        WrappedRuntimeJson {
            cli: ModelRuntimeOverrides::default(),
            launch: PersistedLaunchConfig::default(),
        }
    }
}

/// Why stored settings could not be read.
#[derive(Debug, PartialEq, Eq)]
pub enum OverridesError {
    NotJson,
    NotAnObject,
    UnknownField(String),
    InvalidField(String),
    /// A field comes twice.
    RepeatedField,
}

/// The model of such an error.
pub enum OverridesErrorView {
    NotJson,
    NotAnObject,
    UnknownField(Seq<char>),
    InvalidField(Seq<char>),
    RepeatedField,
}

impl View for OverridesError {
    type V = OverridesErrorView;

    open spec fn view(&self) -> OverridesErrorView {
        match self {
            OverridesError::NotJson => OverridesErrorView::NotJson,
            OverridesError::NotAnObject => OverridesErrorView::NotAnObject,
            OverridesError::UnknownField(k) => OverridesErrorView::UnknownField(k@),
            OverridesError::InvalidField(k) => OverridesErrorView::InvalidField(k@),
            OverridesError::RepeatedField => OverridesErrorView::RepeatedField,
        }
    }
}

impl OverridesErrorView {
    /// The error in words.
    pub open spec fn text(self) -> Seq<char> {
        match self {
            OverridesErrorView::NotJson => "not valid JSON"@,
            OverridesErrorView::NotAnObject => "expected an object"@,
            OverridesErrorView::UnknownField(k) => "unknown field `"@ + k + "`"@,
            OverridesErrorView::InvalidField(k) => "invalid value for `"@ + k + "`"@,
            OverridesErrorView::RepeatedField => "duplicate field"@,
        }
    }
}

impl OverridesError {
    /// The error in words.
    pub fn message(&self) -> (r: String)
        ensures
            r@ == self@.text(),
    {
        match self {
            OverridesError::NotJson => "not valid JSON".to_owned(),
            OverridesError::NotAnObject => "expected an object".to_owned(),
            OverridesError::UnknownField(k) => "unknown field `".to_owned().concat(k).concat("`"),
            OverridesError::InvalidField(k) => "invalid value for `".to_owned().concat(k).concat(
                "`",
            ),
            OverridesError::RepeatedField => "duplicate field".to_owned(),
        }
    }
}

/// An optional number under a key: nothing, null or a number of 32 bits.
pub open spec fn number_field(j: JsonView, key: Seq<char>) -> Result<
    Option<u32>,
    OverridesErrorView,
> {
    match j.field(key) {
        None => Ok(None),
        Some(JsonView::Null) => Ok(None),
        Some(JsonView::Number(n)) => match number_value(n, u32::MAX as int) {
            Ok(v) => Ok(Some(v as u32)),
            Err(_) => Err(OverridesErrorView::InvalidField(key)),
        },
        Some(_) => Err(OverridesErrorView::InvalidField(key)),
    }
}

/// An optional boolean under a key.
pub open spec fn bool_field(j: JsonView, key: Seq<char>) -> Result<
    Option<bool>,
    OverridesErrorView,
> {
    match j.field(key) {
        None => Ok(None),
        Some(JsonView::Null) => Ok(None),
        Some(JsonView::Bool(b)) => Ok(Some(b)),
        Some(_) => Err(OverridesErrorView::InvalidField(key)),
    }
}

/// An optional string under a key.
pub open spec fn string_field(j: JsonView, key: Seq<char>) -> Result<
    Option<Seq<char>>,
    OverridesErrorView,
> {
    match j.field(key) {
        None => Ok(None),
        Some(JsonView::Null) => Ok(None),
        Some(JsonView::Text(s)) => Ok(Some(s)),
        Some(_) => Err(OverridesErrorView::InvalidField(key)),
    }
}

/// A list of strings under a key; empty where the key is missing.
pub open spec fn strings_field(j: JsonView, key: Seq<char>) -> Result<
    Seq<Seq<char>>,
    OverridesErrorView,
> {
    match j.field(key) {
        None => Ok(Seq::empty()),
        Some(JsonView::Array(a)) => if forall|i: int| 0 <= i < a.len() ==> (#[trigger] a[i]) is Text {
            Ok(a.map_values(|v: JsonView| v->Text_0))
        } else {
            Err(OverridesErrorView::InvalidField(key))
        },
        Some(_) => Err(OverridesErrorView::InvalidField(key)),
    }
}

/// The first key that is not known.
pub open spec fn unknown_key(
    entries: Seq<(Seq<char>, JsonView)>,
    known: spec_fn(Seq<char>) -> bool,
) -> Option<Seq<char>>
    decreases entries.len(),
{
    if entries.len() == 0 {
        None
    } else if !known(entries[0].0) {
        Some(entries[0].0)
    } else {
        unknown_key(entries.skip(1), known)
    }
}

/// The keys of the overrides.
pub open spec fn override_key(k: Seq<char>) -> bool {
    k == "cache_ram_mib"@ || k == "swa_full"@ || k == "ctx_checkpoints"@ || k == "cache_reuse"@ || k
        == "extra"@
}

/// The keys of the launch settings.
pub open spec fn launch_key(k: Seq<char>) -> bool {
    k == "gpu_type"@ || k == "gpu_layers"@ || k == "parallel"@
}

/// The keys of what is stored.
pub open spec fn wrapped_key(k: Seq<char>) -> bool {
    k == "cli"@ || k == "launch"@
}

/// The names of the overrides, in order.
pub open spec fn override_names() -> Seq<Seq<char>> {
    Seq::empty().push("cache_ram_mib"@).push("swa_full"@).push("ctx_checkpoints"@).push(
        "cache_reuse"@,
    ).push("extra"@)
}

/// The names of the launch settings, in order.
pub open spec fn launch_names() -> Seq<Seq<char>> {
    Seq::empty().push("gpu_type"@).push("gpu_layers"@).push("parallel"@)
}

/// The names of what is stored, in order.
pub open spec fn wrapped_names() -> Seq<Seq<char>> {
    Seq::empty().push("cli"@).push("launch"@)
}

/// A value with its fields by name. An array gives the first of them in order.
pub open spec fn by_name(j: JsonView, names: Seq<Seq<char>>) -> JsonView {
    match j {
        JsonView::Array(a) => if a.len() <= names.len() {
            JsonView::Object(Seq::new(a.len(), |i: int| (names[i], a[i])))
        } else {
            j
        },
        _ => j,
    }
}

/// Why a value is not an object with known keys.
pub open spec fn shape_error(j: JsonView, known: spec_fn(Seq<char>) -> bool) -> Option<
    OverridesErrorView,
> {
    match j {
        JsonView::Object(entries) => match unknown_key(entries, known) {
            Some(k) => Some(OverridesErrorView::UnknownField(k)),
            None => None,
        },
        _ => Some(OverridesErrorView::NotAnObject),
    }
}

/// The overrides that a value holds. What is missing is not set.
pub open spec fn read_overrides(v: JsonView) -> Result<OverridesView, OverridesErrorView> {
    let j = by_name(v, override_names());
    match shape_error(j, |k: Seq<char>| override_key(k)) {
        Some(e) => Err(e),
        None => match number_field(j, "cache_ram_mib"@) {
            Err(e) => Err(e),
            Ok(cache_ram_mib) => match bool_field(j, "swa_full"@) {
                Err(e) => Err(e),
                Ok(swa_full) => match number_field(j, "ctx_checkpoints"@) {
                    Err(e) => Err(e),
                    Ok(ctx_checkpoints) => match number_field(j, "cache_reuse"@) {
                        Err(e) => Err(e),
                        Ok(cache_reuse) => match strings_field(j, "extra"@) {
                            Err(e) => Err(e),
                            Ok(extra) => Ok(
                                OverridesView {
                                    cache_ram_mib,
                                    swa_full,
                                    ctx_checkpoints,
                                    cache_reuse,
                                    extra,
                                },
                            ),
                        },
                    },
                },
            },
        },
    }
}

/// The launch settings that a value holds.
pub open spec fn read_launch(v: JsonView) -> Result<LaunchView, OverridesErrorView> {
    let j = by_name(v, launch_names());
    match shape_error(j, |k: Seq<char>| launch_key(k)) {
        Some(e) => Err(e),
        None => match string_field(j, "gpu_type"@) {
            Err(e) => Err(e),
            Ok(gpu_type) => match number_field(j, "gpu_layers"@) {
                Err(e) => Err(e),
                Ok(gpu_layers) => match number_field(j, "parallel"@) {
                    Err(e) => Err(e),
                    Ok(parallel) => Ok(LaunchView { gpu_type, gpu_layers, parallel }),
                },
            },
        },
    }
}

/// What a value in the current form holds.
pub open spec fn read_wrapped(v: JsonView) -> Result<WrappedView, OverridesErrorView> {
    let j = by_name(v, wrapped_names());
    match shape_error(j, |k: Seq<char>| wrapped_key(k)) {
        Some(e) => Err(e),
        None => {
            let cli = match j.field("cli"@) {
                Some(v) => read_overrides(v),
                None => Ok(no_overrides()),
            };
            let launch = match j.field("launch"@) {
                Some(v) => read_launch(v),
                None => Ok(no_launch()),
            };
            match (cli, launch) {
                (Err(e), _) => Err(e),
                (_, Err(e)) => Err(e),
                (Ok(cli), Ok(launch)) => Ok(WrappedView { cli, launch }),
            }
        },
    }
}

/// What a stored value holds. The current form has the overrides under `cli` and the launch
/// settings under `launch`; an older one is the overrides alone.
pub open spec fn read_either(j: JsonView) -> Result<WrappedView, OverridesErrorView> {
    match read_wrapped(j) {
        Ok(w) => Ok(w),
        Err(_) => match read_overrides(j) {
            Ok(cli) => Ok(WrappedView { cli, launch: no_launch() }),
            Err(e) => Err(e),
        },
    }
}

/// What a stored text holds. A text in which a field comes twice is refused, and so is one with the
/// key that is not read as a field.
pub open spec fn read_stored(text: Seq<char>) -> Result<WrappedView, OverridesErrorView> {
    match json_read(text) {
        None => Err(OverridesErrorView::NotJson),
        Some(j) => if text_has_key(text, raw_key()) {
            Err(OverridesErrorView::UnknownField(raw_key()))
        } else if repeats_a_key(text) {
            Err(OverridesErrorView::RepeatedField)
        } else {
            read_either(j)
        },
    }
}

/// A number under a key.
fn get_number(j: &Json, key: &str) -> (r: Result<Option<u32>, OverridesError>)
    ensures
        match r {
            Ok(v) => number_field(j@, key@) == Ok::<Option<u32>, OverridesErrorView>(v),
            Err(e) => number_field(j@, key@) == Err::<Option<u32>, OverridesErrorView>(e@),
        },
{
    match j.get(key) {
        None => Ok(None),
        Some(v) => match v {
            Json::Null => Ok(None),
            Json::Number(n) => match parse_unsigned(n, u32::MAX as u64) {
                Ok(v) => Ok(Some(v as u32)),
                Err(_) => Err(OverridesError::InvalidField(key.to_owned())),
            },
            _ => Err(OverridesError::InvalidField(key.to_owned())),
        },
    }
}

/// A boolean under a key.
fn get_bool(j: &Json, key: &str) -> (r: Result<Option<bool>, OverridesError>)
    ensures
        match r {
            Ok(v) => bool_field(j@, key@) == Ok::<Option<bool>, OverridesErrorView>(v),
            Err(e) => bool_field(j@, key@) == Err::<Option<bool>, OverridesErrorView>(e@),
        },
{
    match j.get(key) {
        None => Ok(None),
        Some(v) => match v {
            Json::Null => Ok(None),
            Json::Bool(b) => Ok(Some(*b)),
            _ => Err(OverridesError::InvalidField(key.to_owned())),
        },
    }
}

/// A string under a key.
fn get_string(j: &Json, key: &str) -> (r: Result<Option<String>, OverridesError>)
    ensures
        match r {
            Ok(v) => string_field(j@, key@) == Ok::<Option<Seq<char>>, OverridesErrorView>(
                opt_view(v),
            ),
            Err(e) => string_field(j@, key@) == Err::<Option<Seq<char>>, OverridesErrorView>(e@),
        },
{
    match j.get(key) {
        None => Ok(None),
        Some(v) => match v {
            Json::Null => Ok(None),
            Json::Text(s) => Ok(Some(s.clone())),
            _ => Err(OverridesError::InvalidField(key.to_owned())),
        },
    }
}

/// A list of strings under a key.
fn get_strings(j: &Json, key: &str) -> (r: Result<Vec<String>, OverridesError>)
    ensures
        match r {
            Ok(v) => strings_field(j@, key@) == Ok::<Seq<Seq<char>>, OverridesErrorView>(views(v@)),
            Err(e) => strings_field(j@, key@) == Err::<Seq<Seq<char>>, OverridesErrorView>(e@),
        },
{
    broadcast use crate::json::lemma_array_view;

    let mut out: Vec<String> = Vec::new();
    assert(views(out@) =~= Seq::empty());
    match j.get(key) {
        None => Ok(out),
        Some(v) => match v {
            Json::Array(a) => {
                let ghost items = json_views(a@);
                let mut i: usize = 0;
                while i < a.len()
                    invariant
                        j@.field(key@) == Some(JsonView::Array(items)),
                        items == json_views(a@),
                        i <= a@.len(),
                        out@.len() == i,
                        forall|k: int| 0 <= k < i ==> items[k] == JsonView::Text(out@[k]@),
                    decreases a@.len() - i,
                {
                    assert(items[i as int] == a@[i as int]@);
                    match &a[i] {
                        Json::Text(s) => {
                            out.push(s.clone());
                        },
                        _ => {
                            assert(!(items[i as int] is Text));
                            return Err(OverridesError::InvalidField(key.to_owned()));
                        },
                    }
                    i += 1;
                }
                assert(views(out@) =~= items.map_values(|v: JsonView| v->Text_0));
                Ok(out)
            },
            _ => Err(OverridesError::InvalidField(key.to_owned())),
        },
    }
}

/// Whether a key belongs to the overrides.
fn is_override_key(k: &str) -> (r: bool)
    ensures
        r == override_key(k@),
{
    str_eq(k, "cache_ram_mib") || str_eq(k, "swa_full") || str_eq(k, "ctx_checkpoints") || str_eq(
        k,
        "cache_reuse",
    ) || str_eq(k, "extra")
}

/// Whether a key belongs to the launch settings.
fn is_launch_key(k: &str) -> (r: bool)
    ensures
        r == launch_key(k@),
{
    str_eq(k, "gpu_type") || str_eq(k, "gpu_layers") || str_eq(k, "parallel")
}

/// Whether a key belongs to what is stored.
fn is_wrapped_key(k: &str) -> (r: bool)
    ensures
        r == wrapped_key(k@),
{
    str_eq(k, "cli") || str_eq(k, "launch")
}

/// Which of the objects is being read.
#[derive(Clone, Copy)]
enum Shape {
    Overrides,
    Launch,
    Wrapped,
}

/// The keys that belong to an object.
spec fn shape_keys(shape: Shape) -> spec_fn(Seq<char>) -> bool {
    match shape {
        Shape::Overrides => |k: Seq<char>| override_key(k),
        Shape::Launch => |k: Seq<char>| launch_key(k),
        Shape::Wrapped => |k: Seq<char>| wrapped_key(k),
    }
}

/// The names that belong to an object, in order.
spec fn shape_names(shape: Shape) -> Seq<Seq<char>> {
    match shape {
        Shape::Overrides => override_names(),
        Shape::Launch => launch_names(),
        Shape::Wrapped => wrapped_names(),
    }
}

/// A value with its fields by name.
fn name_fields(j: &Json, shape: Shape) -> (r: Json)
    ensures
        r@ == by_name(j@, shape_names(shape)),
{
    broadcast use {crate::json::lemma_array_view, crate::json::lemma_object_view};

    let mut names: Vec<&str> = Vec::new();
    match shape {
        Shape::Overrides => {
            names.push("cache_ram_mib");
            names.push("swa_full");
            names.push("ctx_checkpoints");
            names.push("cache_reuse");
            names.push("extra");
        },
        Shape::Launch => {
            names.push("gpu_type");
            names.push("gpu_layers");
            names.push("parallel");
        },
        Shape::Wrapped => {
            names.push("cli");
            names.push("launch");
        },
    }
    let ghost all = shape_names(shape);
    assert(names@.map_values(|n: &str| n@) =~= all);
    match j {
        Json::Array(a) => {
            if a.len() > names.len() {
                return j.copy();
            }
            let mut out: Vec<(String, Json)> = Vec::new();
            let mut i: usize = 0;
            while i < a.len()
                invariant
                    a@.len() <= names@.len(),
                    names@.map_values(|n: &str| n@) == all,
                    i == out@.len(),
                    i <= a@.len(),
                    forall|k: int|
                        0 <= k < i ==> (#[trigger] out@[k]).0@ == all[k] && out@[k].1@ == a@[k]@,
                decreases a@.len() - i,
            {
                assert(all[i as int] == names@[i as int]@);
                out.push((names[i].to_owned(), a[i].copy()));
                i += 1;
            }
            let ghost items = json_views(a@);
            assert(entry_views(out@) =~= Seq::new(items.len(), |i: int| (all[i], items[i])));
            Json::Object(out)
        },
        _ => j.copy(),
    }
}

/// Checks that a value is an object with known keys.
fn check_shape(j: &Json, shape: Shape) -> (r: Result<(), OverridesError>)
    ensures
        match r {
            Ok(_) => shape_error(j@, shape_keys(shape)) is None,
            Err(e) => shape_error(j@, shape_keys(shape)) == Some(e@),
        },
{
    broadcast use crate::json::lemma_object_view;

    match j {
        Json::Object(o) => {
            let ghost entries = entry_views(o@);
            let ghost known = shape_keys(shape);
            let mut i: usize = 0;
            assert(entries.skip(0) =~= entries);
            while i < o.len()
                invariant
                    j@ == JsonView::Object(entries),
                    entries == entry_views(o@),
                    known == shape_keys(shape),
                    i <= o@.len(),
                    unknown_key(entries, known) == unknown_key(entries.skip(i as int), known),
                decreases o@.len() - i,
            {
                let ghost rest = entries.skip(i as int);
                assert(rest[0].0 == o@[i as int].0@);
                assert(rest.skip(1) =~= entries.skip(i + 1));
                let k = &o[i].0;
                let ok = match shape {
                    Shape::Overrides => is_override_key(k),
                    Shape::Launch => is_launch_key(k),
                    Shape::Wrapped => is_wrapped_key(k),
                };
                if !ok {
                    return Err(OverridesError::UnknownField(k.clone()));
                }
                i += 1;
            }
            Ok(())
        },
        _ => Err(OverridesError::NotAnObject),
    }
}

impl ModelRuntimeOverrides {
    /// The overrides that a value holds.
    pub fn from_json(v: &Json) -> (r: Result<ModelRuntimeOverrides, OverridesError>)
        ensures
            match r {
                Ok(o) => read_overrides(v@) == Ok::<OverridesView, OverridesErrorView>(o@),
                Err(e) => read_overrides(v@) == Err::<OverridesView, OverridesErrorView>(e@),
            },
    {
        let named = name_fields(v, Shape::Overrides);
        let j = &named;
        match check_shape(j, Shape::Overrides) {
            Ok(_) => {},
            Err(e) => {
                return Err(e);
            },
        }
        let cache_ram_mib = match get_number(j, "cache_ram_mib") {
            Ok(v) => v,
            Err(e) => {
                return Err(e);
            },
        };
        let swa_full = match get_bool(j, "swa_full") {
            Ok(v) => v,
            Err(e) => {
                return Err(e);
            },
        };
        let ctx_checkpoints = match get_number(j, "ctx_checkpoints") {
            Ok(v) => v,
            Err(e) => {
                return Err(e);
            },
        };
        let cache_reuse = match get_number(j, "cache_reuse") {
            Ok(v) => v,
            Err(e) => {
                return Err(e);
            },
        };
        let extra = match get_strings(j, "extra") {
            Ok(v) => v,
            Err(e) => {
                return Err(e);
            },
        };
        Ok(ModelRuntimeOverrides { cache_ram_mib, swa_full, ctx_checkpoints, cache_reuse, extra })
    }
}

impl PersistedLaunchConfig {
    /// The launch settings that a value holds.
    pub fn from_json(v: &Json) -> (r: Result<PersistedLaunchConfig, OverridesError>)
        ensures
            match r {
                Ok(o) => read_launch(v@) == Ok::<LaunchView, OverridesErrorView>(o@),
                Err(e) => read_launch(v@) == Err::<LaunchView, OverridesErrorView>(e@),
            },
    {
        let named = name_fields(v, Shape::Launch);
        let j = &named;
        match check_shape(j, Shape::Launch) {
            Ok(_) => {},
            Err(e) => {
                return Err(e);
            },
        }
        let gpu_type = match get_string(j, "gpu_type") {
            Ok(v) => v,
            Err(e) => {
                return Err(e);
            },
        };
        let gpu_layers = match get_number(j, "gpu_layers") {
            Ok(v) => v,
            Err(e) => {
                return Err(e);
            },
        };
        let parallel = match get_number(j, "parallel") {
            Ok(v) => v,
            Err(e) => {
                return Err(e);
            },
        };
        Ok(PersistedLaunchConfig { gpu_type, gpu_layers, parallel })
    }
}

impl WrappedRuntimeJson {
    /// What a value in the current form holds.
    pub fn from_json(v: &Json) -> (r: Result<WrappedRuntimeJson, OverridesError>)
        ensures
            match r {
                Ok(o) => read_wrapped(v@) == Ok::<WrappedView, OverridesErrorView>(o@),
                Err(e) => read_wrapped(v@) == Err::<WrappedView, OverridesErrorView>(e@),
            },
    {
        let named = name_fields(v, Shape::Wrapped);
        let j = &named;
        match check_shape(j, Shape::Wrapped) {
            Ok(_) => {},
            Err(e) => {
                return Err(e);
            },
        }
        let cli = match j.get("cli") {
            Some(v) => match ModelRuntimeOverrides::from_json(v) {
                Ok(c) => c,
                Err(e) => {
                    return Err(e);
                },
            },
            None => ModelRuntimeOverrides::default(),
        };
        let launch = match j.get("launch") {
            Some(v) => match PersistedLaunchConfig::from_json(v) {
                Ok(c) => c,
                Err(e) => {
                    return Err(e);
                },
            },
            None => PersistedLaunchConfig::default(),
        };
        Ok(WrappedRuntimeJson { cli, launch })
    }

    /// What a stored value holds, in the current form or in the older one.
    pub fn from_stored(j: &Json) -> (r: Result<WrappedRuntimeJson, OverridesError>)
        ensures
            match r {
                Ok(o) => read_either(j@) == Ok::<WrappedView, OverridesErrorView>(o@),
                Err(e) => read_either(j@) == Err::<WrappedView, OverridesErrorView>(e@),
            },
    {
        match WrappedRuntimeJson::from_json(j) {
            Ok(w) => Ok(w),
            Err(_) => match ModelRuntimeOverrides::from_json(j) {
                Ok(cli) => Ok(
                    WrappedRuntimeJson { cli, launch: PersistedLaunchConfig::default() },
                ),
                Err(e) => Err(e),
            },
        }
    }

    /// What a stored text holds, in the current form or in the older one.
    pub fn parse(blob: &str) -> (r: Result<WrappedRuntimeJson, OverridesError>)
        ensures
            match r {
                Ok(v) => read_stored(blob@) == Ok::<WrappedView, OverridesErrorView>(v@),
                Err(e) => read_stored(blob@) == Err::<WrappedView, OverridesErrorView>(e@),
            },
    {
        match parse(blob) {
            Some(j) => if names_key(blob, "$serde_json::private::RawValue") {
                Err(OverridesError::UnknownField("$serde_json::private::RawValue".to_owned()))
            } else if drops_strings(blob, &j) {
                Err(OverridesError::RepeatedField)
            } else {
                WrappedRuntimeJson::from_stored(&j)
            },
            None => Err(OverridesError::NotJson),
        }
    }
}

/// An optional number as a value.
pub open spec fn opt_number(n: Option<u32>) -> JsonView {
    match n {
        Some(n) => JsonView::Number(dec(n as nat)),
        None => JsonView::Null,
    }
}

/// The overrides as a value.
pub open spec fn overrides_json(v: OverridesView) -> JsonView {
    JsonView::Object(
        no_fields().push(("cache_ram_mib"@, opt_number(v.cache_ram_mib))).push(
            (
                "swa_full"@,
                match v.swa_full {
                    Some(b) => JsonView::Bool(b),
                    None => JsonView::Null,
                },
            ),
        ).push(("ctx_checkpoints"@, opt_number(v.ctx_checkpoints))).push(
            ("cache_reuse"@, opt_number(v.cache_reuse)),
        ).push(("extra"@, JsonView::Array(v.extra.map_values(|s: Seq<char>| JsonView::Text(s))))),
    )
}

/// The launch settings as a value.
pub open spec fn launch_json(v: LaunchView) -> JsonView {
    JsonView::Object(
        no_fields().push(
            (
                "gpu_type"@,
                match v.gpu_type {
                    Some(s) => JsonView::Text(s),
                    None => JsonView::Null,
                },
            ),
        ).push(("gpu_layers"@, opt_number(v.gpu_layers))).push(
            ("parallel"@, opt_number(v.parallel)),
        ),
    )
}

/// What is stored, as a value.
pub open spec fn wrapped_json(v: WrappedView) -> JsonView {
    JsonView::Object(
        no_fields().push(("cli"@, overrides_json(v.cli))).push(("launch"@, launch_json(v.launch))),
    )
}

/// An optional number as a value.
fn make_opt_number(n: Option<u32>) -> (r: Json)
    ensures
        r@ == opt_number(n),
{
    match n {
        Some(n) => Json::unsigned(n as u128),
        None => Json::Null,
    }
}

impl ModelRuntimeOverrides {
    /// The overrides as a value.
    pub fn to_value(&self) -> (r: Json)
        ensures
            r@ == overrides_json(self@),
    {
        let swa = match self.swa_full {
            Some(b) => Json::Bool(b),
            None => Json::Null,
        };
        assert(text_views(self.extra@) =~= views(self.extra@).map_values(
            |s: Seq<char>| JsonView::Text(s),
        ));
        ObjectBuilder::new().with("cache_ram_mib", make_opt_number(self.cache_ram_mib)).with(
            "swa_full",
            swa,
        ).with("ctx_checkpoints", make_opt_number(self.ctx_checkpoints)).with(
            "cache_reuse",
            make_opt_number(self.cache_reuse),
        ).with("extra", Json::strings(&self.extra)).done()
    }
}

impl PersistedLaunchConfig {
    /// The launch settings as a value.
    pub fn to_value(&self) -> (r: Json)
        ensures
            r@ == launch_json(self@),
    {
        let gpu = match &self.gpu_type {
            Some(s) => Json::str(s),
            None => Json::Null,
        };
        ObjectBuilder::new().with("gpu_type", gpu).with(
            "gpu_layers",
            make_opt_number(self.gpu_layers),
        ).with("parallel", make_opt_number(self.parallel)).done()
    }
}

/// The decimal text of a number is read back as the number.
proof fn lemma_dec_value(n: nat, max: int)
    requires
        n <= max,
    ensures
        digits_value(dec(n), max) == Ok::<int, NumberError>(n as int),
        dec(n).len() > 0,
        dec(n)[0] != '+',
    decreases n,
{
    if n < 10 {
        let d = dec(n);
        assert(d =~= seq![digit(n as int)]);
        assert(d.drop_last() =~= Seq::empty());
        assert(digits_value(d.drop_last(), max) == Ok::<int, NumberError>(0));
        assert(d.last() as int == 48 + n);
    } else {
        lemma_dec_value(n / 10, max);
        let d = dec(n);
        assert(d.drop_last() =~= dec(n / 10));
        assert(d.last() as int == 48 + n % 10);
        assert(d[0] == dec(n / 10)[0]);
    }
}

/// A key that is found is the key of an entry.
proof fn lemma_lookup_key(entries: Seq<(Seq<char>, JsonView)>, key: Seq<char>)
    requires
        lookup(entries, key) is Some,
    ensures
        exists|i: int| 0 <= i < entries.len() && (#[trigger] entries[i]).0 == key,
    decreases entries.len(),
{
    if entries[0].0 != key {
        lemma_lookup_key(entries.skip(1), key);
        let i = choose|i: int| 0 <= i < entries.skip(1).len() && entries.skip(1)[i].0 == key;
        assert(entries[i + 1].0 == key);
    }
}

/// Where all keys are known, none is unknown.
proof fn lemma_all_known(
    entries: Seq<(Seq<char>, JsonView)>,
    known: spec_fn(Seq<char>) -> bool,
)
    requires
        forall|j: int| 0 <= j < entries.len() ==> known((#[trigger] entries[j]).0),
    ensures
        unknown_key(entries, known) is None,
    decreases entries.len(),
{
    if entries.len() > 0 {
        assert(known(entries[0].0));
        lemma_all_known(entries.skip(1), known);
    }
}

/// An object with the same entries as one with known keys has known keys.
proof fn lemma_known_shape(a: JsonView, b: JsonView, known: spec_fn(Seq<char>) -> bool)
    requires
        a is Object,
        distinct_keys(a->Object_0),
        same_json(a, b),
        forall|i: int| 0 <= i < a->Object_0.len() ==> known((#[trigger] a->Object_0[i]).0),
    ensures
        b is Object,
        shape_error(b, known) is None,
{
    let x = a->Object_0;
    let y = b->Object_0;
    assert forall|j: int| 0 <= j < y.len() implies known((#[trigger] y[j]).0) by {
        lemma_lookup_key(x, y[j].0);
    }
    lemma_all_known(y, known);
}

/// An optional number is read back.
proof fn lemma_number_back(n: Option<u32>, b: JsonView, key: Seq<char>)
    requires
        b.field(key) is Some,
        same_json(opt_number(n), b.field(key)->0),
    ensures
        number_field(b, key) == Ok::<Option<u32>, OverridesErrorView>(n),
{
    if let Some(k) = n {
        assert(dec_int(k as int) == dec(k as nat));
        assert(is_integer_text(dec(k as nat)));
        lemma_dec_value(k as nat, u32::MAX as int);
    }
}

/// The keys that are stored differ from each other.
proof fn lemma_keys_differ()
    ensures
        "cache_ram_mib"@.len() == 13,
        "swa_full"@.len() == 8,
        "ctx_checkpoints"@.len() == 15,
        "cache_reuse"@.len() == 11,
        "extra"@.len() == 5,
        "gpu_type"@ != "parallel"@,
        "gpu_type"@.len() == 8,
        "gpu_layers"@.len() == 10,
        "parallel"@.len() == 8,
        "cli"@.len() == 3,
        "launch"@.len() == 6,
{
    reveal_strlit("cache_ram_mib");
    reveal_strlit("swa_full");
    reveal_strlit("ctx_checkpoints");
    reveal_strlit("cache_reuse");
    reveal_strlit("extra");
    reveal_strlit("gpu_type");
    reveal_strlit("gpu_layers");
    reveal_strlit("parallel");
    reveal_strlit("cli");
    reveal_strlit("launch");
    assert("gpu_type"@[0] == 'g' && "parallel"@[0] == 'p');
}

/// Overrides are read back from a value that holds the same as theirs.
pub proof fn law_overrides_read_back(v: OverridesView, b: JsonView)
    requires
        same_json(overrides_json(v), b),
    ensures
        read_overrides(b) == Ok::<OverridesView, OverridesErrorView>(v),
{
    lemma_keys_differ();
    let a = overrides_json(v);
    let x = a->Object_0;
    assert(x.len() == 5);
    assert(x[0] == ("cache_ram_mib"@, opt_number(v.cache_ram_mib)));
    assert(x[1].0 == "swa_full"@);
    assert(x[2] == ("ctx_checkpoints"@, opt_number(v.ctx_checkpoints)));
    assert(x[3] == ("cache_reuse"@, opt_number(v.cache_reuse)));
    assert(x[4].0 == "extra"@);
    assert(distinct_keys(x));
    lemma_known_shape(a, b, |k: Seq<char>| override_key(k));
    lemma_number_back(v.cache_ram_mib, b, "cache_ram_mib"@);
    lemma_number_back(v.ctx_checkpoints, b, "ctx_checkpoints"@);
    lemma_number_back(v.cache_reuse, b, "cache_reuse"@);
    assert(same_json(x[1].1, b.field("swa_full"@)->0));
    assert(same_json(x[4].1, b.field("extra"@)->0));
    let e = x[4].1->Array_0;
    let items = b.field("extra"@)->0->Array_0;
    assert forall|i: int| 0 <= i < items.len() implies #[trigger] items[i] == JsonView::Text(
        v.extra[i],
    ) by {
        assert(e[i] == JsonView::Text(v.extra[i]));
        assert(same_json(e[i], items[i]));
    }
    assert(items.map_values(|v: JsonView| v->Text_0) =~= v.extra);
}

/// Launch settings are read back from a value that holds the same as theirs.
pub proof fn law_launch_read_back(v: LaunchView, b: JsonView)
    requires
        same_json(launch_json(v), b),
    ensures
        read_launch(b) == Ok::<LaunchView, OverridesErrorView>(v),
{
    lemma_keys_differ();
    let a = launch_json(v);
    let x = a->Object_0;
    assert(x.len() == 3);
    assert(x[0].0 == "gpu_type"@);
    assert(x[1] == ("gpu_layers"@, opt_number(v.gpu_layers)));
    assert(x[2] == ("parallel"@, opt_number(v.parallel)));
    assert(distinct_keys(x));
    lemma_known_shape(a, b, |k: Seq<char>| launch_key(k));
    assert(same_json(x[0].1, b.field("gpu_type"@)->0));
    lemma_number_back(v.gpu_layers, b, "gpu_layers"@);
    lemma_number_back(v.parallel, b, "parallel"@);
}

/// What was stored is read back from a value that holds the same.
pub proof fn law_stored_read_back(v: WrappedView, b: JsonView)
    requires
        same_json(wrapped_json(v), b),
    ensures
        read_wrapped(b) == Ok::<WrappedView, OverridesErrorView>(v),
{
    lemma_keys_differ();
    let a = wrapped_json(v);
    let x = a->Object_0;
    assert(x.len() == 2);
    assert(x[0] == ("cli"@, overrides_json(v.cli)));
    assert(x[1] == ("launch"@, launch_json(v.launch)));
    assert(distinct_keys(x));
    lemma_known_shape(a, b, |k: Seq<char>| wrapped_key(k));
    law_overrides_read_back(v.cli, b.field("cli"@)->0);
    law_launch_read_back(v.launch, b.field("launch"@)->0);
}

/// A key that is not known is reported, unless an earlier one is.
proof fn lemma_unknown_is_found(
    entries: Seq<(Seq<char>, JsonView)>,
    known: spec_fn(Seq<char>) -> bool,
    i: int,
)
    requires
        0 <= i < entries.len(),
        !known(entries[i].0),
    ensures
        unknown_key(entries, known) is Some,
    decreases entries.len(),
{
    if known(entries[0].0) {
        assert(entries.skip(1)[i - 1] == entries[i]);
        lemma_unknown_is_found(entries.skip(1), known, i - 1);
    }
}

/// A field that is not known is never passed over: overrides and launch settings with one are
/// refused.
pub proof fn law_unknown_fields_are_refused(entries: Seq<(Seq<char>, JsonView)>, i: int)
    requires
        0 <= i < entries.len(),
    ensures
        !override_key(entries[i].0) ==> read_overrides(JsonView::Object(entries)) is Err,
        !launch_key(entries[i].0) ==> read_launch(JsonView::Object(entries)) is Err,
        !wrapped_key(entries[i].0) ==> read_wrapped(JsonView::Object(entries)) is Err,
{
    if !override_key(entries[i].0) {
        lemma_unknown_is_found(entries, |k: Seq<char>| override_key(k), i);
    }
    if !launch_key(entries[i].0) {
        lemma_unknown_is_found(entries, |k: Seq<char>| launch_key(k), i);
    }
    if !wrapped_key(entries[i].0) {
        lemma_unknown_is_found(entries, |k: Seq<char>| wrapped_key(k), i);
    }
}

/// The older form is still read: overrides alone count as what is stored without launch settings.
pub proof fn law_older_form_is_read(v: OverridesView, b: JsonView)
    requires
        same_json(overrides_json(v), b),
    ensures
        read_either(b) == Ok::<WrappedView, OverridesErrorView>(
            WrappedView { cli: v, launch: no_launch() },
        ),
{
    law_overrides_read_back(v, b);
    lemma_keys_differ();
    let a = overrides_json(v);
    let x = a->Object_0;
    assert(x.len() == 5);
    assert(x[0].0 == "cache_ram_mib"@);
    assert(x[1].0 == "swa_full"@);
    assert(x[2].0 == "ctx_checkpoints"@);
    assert(x[3].0 == "cache_reuse"@);
    assert(x[4].0 == "extra"@);
    assert(distinct_keys(x));
    lemma_lookup_key(b->Object_0, "cache_ram_mib"@);
    let i = choose|i: int|
        0 <= i < b->Object_0.len() && (#[trigger] b->Object_0[i]).0 == "cache_ram_mib"@;
    law_unknown_fields_are_refused(b->Object_0, i);
}

/// The overrides are a readable value.
pub proof fn lemma_overrides_readable(v: OverridesView, depth: nat)
    requires
        depth >= 2,
    ensures
        readable(overrides_json(v), depth),
{
    lemma_keys_differ();
    reveal_strlit("$serde_json::private::RawValue");
    let x = overrides_json(v)->Object_0;
    assert(x.len() == 5);
    assert(x[0].0 == "cache_ram_mib"@);
    assert(x[1].0 == "swa_full"@);
    assert(x[2].0 == "ctx_checkpoints"@);
    assert(x[3].0 == "cache_reuse"@);
    assert(x[4].0 == "extra"@);
    assert forall|i: int| #![trigger x[i]] 0 <= i < x.len() implies x[i].0 != raw_key() && readable(
        x[i].1,
        (depth - 1) as nat,
    ) by {
        reveal_with_fuel(nested_at_most, 2);
        reveal_with_fuel(lacks_key, 2);
    }
}

/// What is stored is a readable value.
proof fn lemma_settings_readable(v: WrappedView)
    ensures
        readable(wrapped_json(v), READ_DEPTH as nat),
{
    lemma_keys_differ();
    reveal_strlit("$serde_json::private::RawValue");
    let depth = (READ_DEPTH - 1) as nat;
    lemma_overrides_readable(v.cli, depth);
    let y = launch_json(v.launch)->Object_0;
    assert(y.len() == 3);
    assert(y[0].0 == "gpu_type"@);
    assert(y[1].0 == "gpu_layers"@);
    assert(y[2].0 == "parallel"@);
    assert forall|i: int| #![trigger y[i]] 0 <= i < y.len() implies y[i].0 != raw_key() && readable(
        y[i].1,
        (depth - 1) as nat,
    ) by {}
    assert(readable(launch_json(v.launch), depth));
    let x = wrapped_json(v)->Object_0;
    assert(x.len() == 2);
    assert(x[0] == ("cli"@, overrides_json(v.cli)));
    assert(x[1] == ("launch"@, launch_json(v.launch)));
}

impl WrappedRuntimeJson {
    /// The text that is stored, field by field. Reading it gives back what was stored.
    pub fn to_json(&self) -> (r: Result<String, OverridesError>)
        ensures
            r is Ok,
            r->Ok_0@ == record_text(wrapped_json(self@)),
            read_stored(r->Ok_0@) == Ok::<WrappedView, OverridesErrorView>(self@),
    {
        let j = ObjectBuilder::new().with("cli", self.cli.to_value()).with(
            "launch",
            self.launch.to_value(),
        ).done();
        proof {
            lemma_settings_readable(self@);
        }
        let text = to_record_text(&j);
        proof {
            law_stored_read_back(self@, json_read(text@)->0);
        }
        Ok(text)
    }
}

} // verus!
