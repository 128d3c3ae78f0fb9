//! Parsing a command line into stage descriptors.
//!
//! Tokens become flags by a fixed lookup table; a token that names no flag
//! is a configuration error, fatal before any traversal starts. The flags
//! then fold into stages: loader flags open a new stage, scorer flags append
//! a scorer with the following value as its target, and a scorer without a
//! target is a configuration error.

use vstd::prelude::*;
use vstd::string::StrSliceExecFns;
use vstd::string::StringExecFns;

use crate::loaders::{parse, spec_parse, LoaderKind, LoaderV};
use crate::pipeline::default_stage;
use crate::scorers::ScorerKind;
use crate::stage::{spec_default_stagev, stagev_valid, ScorerSpec, ScorerSpecV, Stage, StageV};

verus! {

/// A fatal configuration error: the pipeline never starts.
#[derive(Debug)]
pub enum ConfigError {
    /// A token names no known flag.
    UnknownArgument(String),
    /// A flag that needs a value was given none.
    MissingTarget(String),
}

/// One parsed flag: its short and long name, and the value that followed it.
pub struct Arg {
    /// The one-character form of the flag.
    pub short: char,
    /// The long form of the flag.
    pub long: String,
    /// The bare token that followed the flag, if any.
    pub value: Option<String>,
}

/// The mathematical form of a parsed flag.
pub struct ArgV {
    /// The one-character form of the flag.
    pub short: char,
    /// The long form of the flag.
    pub long: Seq<char>,
    /// The bare token that followed the flag, if any.
    pub value: Option<Seq<char>>,
}

impl View for Arg {
    type V = ArgV;

    open spec fn view(&self) -> ArgV {
        ArgV {
            short: self.short,
            long: self.long@,
            value: match self.value {
                Option::Some(s) => Option::Some(s@),
                Option::None => Option::None,
            },
        }
    }
}

/// Whether the token names this flag: `--name` compares the long form, a
/// single dash compares the short form against the dash itself, and a bare
/// token compares the long form, or the short form when one character long.
pub open spec fn spec_arg_is(a: ArgV, other: Seq<char>) -> bool
    recommends
        other.len() > 0,
{
    if other.len() >= 2 && other[0] == '-' && other[1] == '-' {
        a.long == other.skip(2)
    } else if other[0] == '-' {
        a.short == other[0]
    } else {
        a.long == other || (other.len() == 1 && a.short == other[0])
    }
}

impl Arg {
    /// A flag with no value yet.
    pub fn new(short: char, long: &str) -> (r: Arg)
        ensures
            r@.short == short,
            r@.long == long@,
            r@.value is None,
    {
        Arg { short, long: String::from_str(long), value: Option::None }
    }

    /// Whether the token names this flag.
    pub fn is(&self, other: &str) -> (r: bool)
        requires
            other@.len() > 0,
        ensures
            r == spec_arg_is(self@, other@),
    {
        let n = other.unicode_len();
        if n >= 2 && other.get_char(0) == '-' && other.get_char(1) == '-' {
            let rest = other.substring_char(2, n);
            proof {
                assert(rest@ =~= other@.skip(2));
            }
            self.long.eq(&String::from_str(rest))
        } else if other.get_char(0) == '-' {
            self.short == other.get_char(0)
        } else {
            if self.long.eq(&String::from_str(other)) {
                true
            } else if n == 1 {
                self.short == other.get_char(0)
            } else {
                false
            }
        }
    }

    /// Attach the bare token that followed this flag.
    pub fn set_value(&mut self, other: &str)
        ensures
            final(self)@.short == old(self)@.short,
            final(self)@.long == old(self)@.long,
            final(self)@.value == Option::Some(other@),
    {
        self.value = Option::Some(String::from_str(other));
    }

    /// The value attached to this flag, if any.
    pub fn get_value(&self) -> (r: Option<String>)
        ensures
            match r {
                Option::Some(s) => self@.value == Option::Some(s@),
                Option::None => self@.value is None,
            },
    {
        match &self.value {
            Option::Some(v) => Option::Some(v.clone()),
            Option::None => Option::None,
        }
    }
}

/// The short form of a long flag name, if the name is known.
pub open spec fn spec_lookup_long(name: Seq<char>) -> Option<char> {
    if name == "absolute"@ {
        Some('A')
    } else if name == "content-ext"@ {
        Some('E')
    } else if name == "content-path"@ {
        Some('P')
    } else if name == "content-text"@ {
        Some('t')
    } else if name == "content-title"@ {
        Some('T')
    } else if name == "content-exec"@ {
        Some('C')
    } else if name == "echo"@ {
        Some('\0')
    } else if name == "help"@ {
        Some('\0')
    } else if name == "hidden"@ {
        Some('a')
    } else if name == "insensitive"@ {
        Some('i')
    } else if name == "recursive"@ {
        Some('r')
    } else if name == "score"@ {
        Some('\0')
    } else if name == "stats"@ {
        Some('\0')
    } else if name == "strats"@ {
        Some('\0')
    } else if name == "version"@ {
        Some('V')
    } else if name == "has"@ {
        Some('h')
    } else if name == "hasnt"@ {
        Some('H')
    } else if name == "is"@ {
        Some('e')
    } else if name == "less"@ {
        Some('L')
    } else if name == "long"@ {
        Some('l')
    } else if name == "more"@ {
        Some('m')
    } else if name == "not"@ {
        Some('n')
    } else {
        None
    }
}

/// The long form of a short flag character, if the character is known.
pub open spec fn spec_lookup_short(c: char) -> Option<Seq<char>> {
    if c == 'A' {
        Some("absolute"@)
    } else if c == 'E' {
        Some("content-ext"@)
    } else if c == 'P' {
        Some("content-path"@)
    } else if c == 't' {
        Some("content-text"@)
    } else if c == 'T' {
        Some("content-title"@)
    } else if c == 'C' {
        Some("content-exec"@)
    } else if c == '\0' {
        Some("echo"@)
    } else if c == 'a' {
        Some("hidden"@)
    } else if c == 'i' {
        Some("insensitive"@)
    } else if c == 'r' {
        Some("recursive"@)
    } else if c == 'V' {
        Some("version"@)
    } else if c == 'h' {
        Some("has"@)
    } else if c == 'H' {
        Some("hasnt"@)
    } else if c == 'e' {
        Some("is"@)
    } else if c == 'L' {
        Some("less"@)
    } else if c == 'l' {
        Some("long"@)
    } else if c == 'm' {
        Some("more"@)
    } else if c == 'n' {
        Some("not"@)
    } else {
        None
    }
}

/// Find the flag with the given long name.
fn lookup_long(name: &String) -> (r: Option<(char, &'static str)>)
    ensures
        match r {
            Some((c, l)) => spec_lookup_long(name@) == Some(c) && l@ == name@,
            None => spec_lookup_long(name@) is None,
        },
{
    if name.eq(&String::from_str("absolute")) {
        Some(('A', "absolute"))
    } else if name.eq(&String::from_str("content-ext")) {
        Some(('E', "content-ext"))
    } else if name.eq(&String::from_str("content-path")) {
        Some(('P', "content-path"))
    } else if name.eq(&String::from_str("content-text")) {
        Some(('t', "content-text"))
    } else if name.eq(&String::from_str("content-title")) {
        Some(('T', "content-title"))
    } else if name.eq(&String::from_str("content-exec")) {
        Some(('C', "content-exec"))
    } else if name.eq(&String::from_str("echo")) {
        Some(('\0', "echo"))
    } else if name.eq(&String::from_str("help")) {
        Some(('\0', "help"))
    } else if name.eq(&String::from_str("hidden")) {
        Some(('a', "hidden"))
    } else if name.eq(&String::from_str("insensitive")) {
        Some(('i', "insensitive"))
    } else if name.eq(&String::from_str("recursive")) {
        Some(('r', "recursive"))
    } else if name.eq(&String::from_str("score")) {
        Some(('\0', "score"))
    } else if name.eq(&String::from_str("stats")) {
        Some(('\0', "stats"))
    } else if name.eq(&String::from_str("strats")) {
        Some(('\0', "strats"))
    } else if name.eq(&String::from_str("version")) {
        Some(('V', "version"))
    } else if name.eq(&String::from_str("has")) {
        Some(('h', "has"))
    } else if name.eq(&String::from_str("hasnt")) {
        Some(('H', "hasnt"))
    } else if name.eq(&String::from_str("is")) {
        Some(('e', "is"))
    } else if name.eq(&String::from_str("less")) {
        Some(('L', "less"))
    } else if name.eq(&String::from_str("long")) {
        Some(('l', "long"))
    } else if name.eq(&String::from_str("more")) {
        Some(('m', "more"))
    } else if name.eq(&String::from_str("not")) {
        Some(('n', "not"))
    } else {
        None
    }
}

/// Find the flag with the given short character.
fn lookup_short(c: char) -> (r: Option<&'static str>)
    ensures
        match r {
            Some(l) => spec_lookup_short(c) == Some(l@),
            None => spec_lookup_short(c) is None,
        },
{
    if c == 'A' {
        Some("absolute")
    } else if c == 'E' {
        Some("content-ext")
    } else if c == 'P' {
        Some("content-path")
    } else if c == 't' {
        Some("content-text")
    } else if c == 'T' {
        Some("content-title")
    } else if c == 'C' {
        Some("content-exec")
    } else if c == '\0' {
        Some("echo")
    } else if c == 'a' {
        Some("hidden")
    } else if c == 'i' {
        Some("insensitive")
    } else if c == 'r' {
        Some("recursive")
    } else if c == 'V' {
        Some("version")
    } else if c == 'h' {
        Some("has")
    } else if c == 'H' {
        Some("hasnt")
    } else if c == 'e' {
        Some("is")
    } else if c == 'L' {
        Some("less")
    } else if c == 'l' {
        Some("long")
    } else if c == 'm' {
        Some("more")
    } else if c == 'n' {
        Some("not")
    } else {
        None
    }
}

/// The views of a sequence of parsed flags.
pub open spec fn spec_args_view(s: Seq<Arg>) -> Seq<ArgV> {
    s.map_values(|a: Arg| a@)
}

/// Parse the characters of one combined short-flag token, appending one flag
/// per character; an unknown character fails the whole parse.
pub open spec fn spec_parse_shorts(acc: Seq<ArgV>, cs: Seq<char>) -> Option<Seq<ArgV>>
    decreases cs.len(),
{
    if cs.len() == 0 {
        Some(acc)
    } else {
        match spec_lookup_short(cs[0]) {
            Option::Some(l) => spec_parse_shorts(
                acc.push(ArgV { short: cs[0], long: l, value: Option::None }),
                cs.drop_first(),
            ),
            Option::None => None,
        }
    }
}

/// Parse one token: a `--name` flag, a `-abc` run of short flags, or a bare
/// token that becomes the value of the flag before it (and is dropped when
/// no flag precedes it).
pub open spec fn spec_parse_step(acc: Seq<ArgV>, token: Seq<char>) -> Option<Seq<ArgV>> {
    if token.len() >= 2 && token[0] == '-' && token[1] == '-' {
        match spec_lookup_long(token.skip(2)) {
            Option::Some(c) => Some(
                acc.push(ArgV { short: c, long: token.skip(2), value: Option::None }),
            ),
            Option::None => None,
        }
    } else if token.len() >= 1 && token[0] == '-' {
        spec_parse_shorts(acc, token.skip(1))
    } else {
        if acc.len() == 0 {
            Some(acc)
        } else {
            Some(
                acc.update(
                    acc.len() - 1,
                    ArgV {
                        short: acc.last().short,
                        long: acc.last().long,
                        value: Option::Some(token),
                    },
                ),
            )
        }
    }
}

/// Parse the remaining tokens onto already parsed flags.
pub open spec fn spec_parse_args_from(acc: Seq<ArgV>, tokens: Seq<Seq<char>>) -> Option<
    Seq<ArgV>,
>
    decreases tokens.len(),
{
    if tokens.len() == 0 {
        Some(acc)
    } else {
        match spec_parse_step(acc, tokens[0]) {
            Option::Some(acc2) => spec_parse_args_from(acc2, tokens.drop_first()),
            Option::None => None,
        }
    }
}

/// The character sequences of the given tokens.
pub open spec fn spec_token_views(args: Seq<String>) -> Seq<Seq<char>> {
    args.map_values(|s: String| s@)
}

/// What parsing the given tokens produces, or nothing when a token names no
/// known flag.
pub open spec fn spec_parse_args(args: Seq<String>) -> Option<Seq<ArgV>> {
    spec_parse_args_from(Seq::empty(), spec_token_views(args))
}

/// Parse the command-line tokens into flags. A token that names no known
/// flag is an unknown-argument error, exactly when the mathematical parse
/// has no result.
pub fn parse_args(args: &Vec<String>) -> (r: Result<Vec<Arg>, ConfigError>)
    ensures
        match r {
            Result::Ok(v) => spec_parse_args(args@) == Some(spec_args_view(v@)),
            Result::Err(e) => spec_parse_args(args@) is None && e is UnknownArgument,
        },
{
    let ghost all_tokens = spec_token_views(args@);
    let mut parsed: Vec<Arg> = Vec::new();
    let mut i: usize = 0;
    proof {
        assert(all_tokens.skip(0) =~= all_tokens);
        assert(spec_args_view(Seq::<Arg>::empty()) =~= Seq::<ArgV>::empty());
        assert(parsed@ =~= Seq::<Arg>::empty());
    }
    while i < args.len()
        invariant
            i <= args@.len(),
            all_tokens == spec_token_views(args@),
            all_tokens.len() == args@.len(),
            spec_parse_args(args@) == spec_parse_args_from(
                spec_args_view(parsed@),
                all_tokens.skip(i as int),
            ),
        decreases args@.len() - i,
    {
        let ghost acc0 = spec_args_view(parsed@);
        let ghost token = args@[i as int]@;
        proof {
            assert(all_tokens.skip(i as int)[0] == token);
            assert(all_tokens.skip(i as int).drop_first() =~= all_tokens.skip(i + 1));
        }
        let arg = &args[i];
        let n = arg.as_str().unicode_len();
        if n >= 2 && arg.as_str().get_char(0) == '-' && arg.as_str().get_char(1) == '-' {
            let name = String::from_str(arg.as_str().substring_char(2, n));
            proof {
                assert(name@ =~= token.skip(2));
            }
            match lookup_long(&name) {
                Option::Some((c, l)) => {
                    parsed.push(Arg::new(c, l));
                    proof {
                        assert(spec_args_view(parsed@) =~= acc0.push(
                            ArgV { short: c, long: token.skip(2), value: Option::None },
                        ));
                    }
                },
                Option::None => {
                    proof {
                        assert(spec_parse_step(acc0, token) is None);
                    }
                    return Result::Err(ConfigError::UnknownArgument(arg.clone()));
                },
            }
        } else if n >= 1 && arg.as_str().get_char(0) == '-' {
            let mut k: usize = 1;
            proof {
                assert(spec_parse_step(acc0, token) == spec_parse_shorts(acc0, token.skip(1)));
            }
            while k < n
                invariant
                    1 <= k <= n,
                    n == token.len(),
                    token == args@[i as int]@,
                    i < args@.len(),
                    all_tokens == spec_token_views(args@),
                    all_tokens.len() == args@.len(),
                    all_tokens.skip(i as int)[0] == token,
                    spec_parse_args(args@) == spec_parse_args_from(
                        acc0,
                        all_tokens.skip(i as int),
                    ),
                    spec_parse_step(acc0, token) == spec_parse_shorts(
                        spec_args_view(parsed@),
                        token.skip(k as int),
                    ),
                decreases n - k,
            {
                let c = args[i].as_str().get_char(k);
                let ghost acc_in = spec_args_view(parsed@);
                proof {
                    assert(token.skip(k as int)[0] == token[k as int]);
                    assert(token.skip(k as int).drop_first() =~= token.skip(k + 1));
                }
                match lookup_short(c) {
                    Option::Some(l) => {
                        parsed.push(Arg::new(c, l));
                        proof {
                            assert(spec_args_view(parsed@) =~= acc_in.push(
                                ArgV { short: c, long: l@, value: Option::None },
                            ));
                        }
                    },
                    Option::None => {
                        proof {
                            assert(spec_parse_shorts(acc_in, token.skip(k as int)) is None);
                        }
                        return Result::Err(ConfigError::UnknownArgument(args[i].clone()));
                    },
                }
                k = k + 1;
            }
            proof {
                assert(token.skip(n as int) =~= Seq::<char>::empty());
                assert(spec_parse_shorts(spec_args_view(parsed@), token.skip(n as int)) == Some(
                    spec_args_view(parsed@),
                ));
            }
        } else {
            if parsed.len() > 0 {
                let m = parsed.len() - 1;
                let last = &mut parsed[m];
                last.set_value(args[i].as_str());
                proof {
                    assert(spec_args_view(parsed@) =~= acc0.update(
                        acc0.len() - 1,
                        ArgV {
                            short: acc0.last().short,
                            long: acc0.last().long,
                            value: Option::Some(token),
                        },
                    ));
                }
            }
        }
        i = i + 1;
    }
    proof {
        assert(all_tokens.skip(args@.len() as int) =~= Seq::<Seq<char>>::empty());
    }
    Result::Ok(parsed)
}

/// The parser's running state: the stage being built and the stages already
/// finished.
pub struct RunsState {
    /// The stage currently being built.
    pub cur: StageV,
    /// The finished stages, in order.
    pub stages: Seq<StageV>,
}

/// The state before any flag is seen: a title-loader stage with no scorers,
/// case-insensitive, and no finished stages.
pub open spec fn spec_runs_init() -> RunsState {
    RunsState {
        cur: StageV { loader: LoaderV::Title, scorers: Seq::empty(), insensitive: true },
        stages: Seq::empty(),
    }
}

/// Close the stage being built: keep it only when it is valid.
pub open spec fn spec_push_if_valid(st: RunsState) -> Seq<StageV> {
    if stagev_valid(st.cur) {
        st.stages.push(st.cur)
    } else {
        st.stages
    }
}

/// The scorer kind a flag name stands for, if any.
pub open spec fn spec_scorer_kind_of(long: Seq<char>) -> Option<ScorerKind> {
    if long == "is"@ {
        Some(ScorerKind::Is)
    } else if long == "not"@ {
        Some(ScorerKind::Not)
    } else if long == "has"@ {
        Some(ScorerKind::Has)
    } else if long == "hasnt"@ {
        Some(ScorerKind::Hasnt)
    } else if long == "more"@ {
        Some(ScorerKind::More)
    } else {
        None
    }
}

/// Fold one flag into the parser state: a loader flag closes the stage
/// being built and opens a new one, `insensitive` marks the stage, a scorer
/// flag appends a scorer whose target is the flag's value, and a scorer or
/// exec loader without a value is a configuration error.
pub open spec fn spec_runs_step(st: RunsState, a: ArgV) -> Option<RunsState> {
    if spec_parse(a.long) is Some {
        let k = spec_parse(a.long)->Some_0;
        Some(
            RunsState {
                cur: StageV { loader: k@, scorers: Seq::empty(), insensitive: false },
                stages: spec_push_if_valid(st),
            },
        )
    } else if a.long == "content-exec"@ {
        match a.value {
            Option::Some(v) => Some(
                RunsState {
                    cur: StageV {
                        loader: LoaderV::Exec(v),
                        scorers: Seq::empty(),
                        insensitive: false,
                    },
                    stages: spec_push_if_valid(st),
                },
            ),
            Option::None => None,
        }
    } else if a.long == "insensitive"@ {
        Some(
            RunsState {
                cur: StageV {
                    loader: st.cur.loader,
                    scorers: st.cur.scorers,
                    insensitive: true,
                },
                stages: st.stages,
            },
        )
    } else {
        match spec_scorer_kind_of(a.long) {
            Option::Some(k) => match a.value {
                Option::Some(v) => Some(
                    RunsState {
                        cur: StageV {
                            loader: st.cur.loader,
                            scorers: st.cur.scorers.push(ScorerSpecV { kind: k, target: v }),
                            insensitive: st.cur.insensitive,
                        },
                        stages: st.stages,
                    },
                ),
                Option::None => None,
            },
            Option::None => Some(st),
        }
    }
}

/// Fold the remaining flags into the parser state.
pub open spec fn spec_runs_from(st: RunsState, args: Seq<ArgV>) -> Option<RunsState>
    decreases args.len(),
{
    if args.len() == 0 {
        Some(st)
    } else {
        match spec_runs_step(st, args[0]) {
            Option::Some(st2) => spec_runs_from(st2, args.drop_first()),
            Option::None => None,
        }
    }
}

/// The stages a flag list describes: the finished stages, the stage still
/// being built if valid, and the default pass-through stage when nothing
/// else is left.
pub open spec fn spec_content_runs(args: Seq<ArgV>) -> Option<Seq<StageV>> {
    match spec_runs_from(spec_runs_init(), args) {
        Option::Some(st) => {
            let stages = spec_push_if_valid(st);
            Some(
                if stages.len() == 0 {
                    seq![spec_default_stagev()]
                } else {
                    stages
                },
            )
        },
        Option::None => None,
    }
}

/// The views of a sequence of stages.
pub open spec fn spec_stages_view(s: Seq<Stage>) -> Seq<StageV> {
    s.map_values(|st: Stage| st@)
}

/// Build the stage descriptors from the parsed flags. A scorer flag or an
/// exec loader without a value is a missing-target error, exactly when the
/// mathematical fold has no result; a flag list that yields no valid stage
/// gives the single default pass-through stage.
pub fn get_content_runs(args: &Vec<Arg>) -> (r: Result<Vec<Stage>, ConfigError>)
    ensures
        match r {
            Result::Ok(v) => spec_content_runs(spec_args_view(args@)) == Some(
                spec_stages_view(v@),
            ),
            Result::Err(e) => spec_content_runs(spec_args_view(args@)) is None
                && e is MissingTarget,
        },
{
    let ghost all_args = spec_args_view(args@);
    let mut cur = Stage { loader: LoaderKind::Title, scorers: Vec::new(), insensitive: true };
    let mut stages: Vec<Stage> = Vec::new();
    let mut i: usize = 0;
    proof {
        assert(all_args.skip(0) =~= all_args);
        assert(cur@.scorers =~= Seq::<ScorerSpecV>::empty());
        assert(spec_stages_view(stages@) =~= Seq::<StageV>::empty());
        assert(RunsState { cur: cur@, stages: spec_stages_view(stages@) } == spec_runs_init());
    }
    while i < args.len()
        invariant
            i <= args@.len(),
            all_args == spec_args_view(args@),
            all_args.len() == args@.len(),
            spec_runs_from(spec_runs_init(), all_args) == spec_runs_from(
                RunsState { cur: cur@, stages: spec_stages_view(stages@) },
                all_args.skip(i as int),
            ),
        decreases args@.len() - i,
    {
        let ghost st0 = RunsState { cur: cur@, stages: spec_stages_view(stages@) };
        let ghost av = args@[i as int]@;
        proof {
            assert(all_args.skip(i as int)[0] == av);
            assert(all_args.skip(i as int).drop_first() =~= all_args.skip(i + 1));
        }
        let a = &args[i];
        match parse(&a.long) {
            Option::Some(k) => {
                if cur.is_valid() {
                    stages.push(cur);
                    proof {
                        assert(spec_stages_view(stages@) =~= st0.stages.push(st0.cur));
                    }
                }
                cur = Stage { loader: k, scorers: Vec::new(), insensitive: false };
                proof {
                    assert(cur@.scorers =~= Seq::<ScorerSpecV>::empty());
                    assert(Some(
                        RunsState { cur: cur@, stages: spec_stages_view(stages@) },
                    ) == spec_runs_step(st0, av));
                }
            },
            Option::None => {
                if a.long.eq(&String::from_str("content-exec")) {
                    match a.get_value() {
                        Option::Some(v) => {
                            if cur.is_valid() {
                                stages.push(cur);
                                proof {
                                    assert(spec_stages_view(stages@) =~= st0.stages.push(st0.cur));
                                }
                            }
                            cur = Stage {
                                loader: LoaderKind::Exec(v),
                                scorers: Vec::new(),
                                insensitive: false,
                            };
                            proof {
                                assert(cur@.scorers =~= Seq::<ScorerSpecV>::empty());
                                assert(Some(
                                    RunsState { cur: cur@, stages: spec_stages_view(stages@) },
                                ) == spec_runs_step(st0, av));
                            }
                        },
                        Option::None => {
                            proof {
                                assert(spec_runs_step(st0, av) is None);
                            }
                            return Result::Err(ConfigError::MissingTarget(a.long.clone()));
                        },
                    }
                } else if a.long.eq(&String::from_str("insensitive")) {
                    cur.insensitive = true;
                    proof {
                        assert(Some(
                            RunsState { cur: cur@, stages: spec_stages_view(stages@) },
                        ) == spec_runs_step(st0, av));
                    }
                } else {
                    let kind = if a.long.eq(&String::from_str("is")) {
                        Option::Some(ScorerKind::Is)
                    } else if a.long.eq(&String::from_str("not")) {
                        Option::Some(ScorerKind::Not)
                    } else if a.long.eq(&String::from_str("has")) {
                        Option::Some(ScorerKind::Has)
                    } else if a.long.eq(&String::from_str("hasnt")) {
                        Option::Some(ScorerKind::Hasnt)
                    } else if a.long.eq(&String::from_str("more")) {
                        Option::Some(ScorerKind::More)
                    } else {
                        Option::None
                    };
                    proof {
                        assert(match kind {
                            Option::Some(k) => spec_scorer_kind_of(av.long) == Some(k),
                            Option::None => spec_scorer_kind_of(av.long) is None,
                        });
                    }
                    match kind {
                        Option::Some(k) => {
                            match a.get_value() {
                                Option::Some(v) => {
                                    let ghost pre_cur = cur@;
                                    cur.scorers.push(ScorerSpec { kind: k, target: v });
                                    proof {
                                        assert(cur@.scorers =~= pre_cur.scorers.push(
                                            ScorerSpecV { kind: k, target: av.value->Some_0 },
                                        ));
                                        assert(Some(
                                            RunsState {
                                                cur: cur@,
                                                stages: spec_stages_view(stages@),
                                            },
                                        ) == spec_runs_step(st0, av));
                                    }
                                },
                                Option::None => {
                                    proof {
                                        assert(spec_runs_step(st0, av) is None);
                                    }
                                    return Result::Err(
                                        ConfigError::MissingTarget(a.long.clone()),
                                    );
                                },
                            }
                        },
                        Option::None => {
                            proof {
                                assert(Some(st0) == spec_runs_step(st0, av));
                            }
                        },
                    }
                }
            },
        }
        i = i + 1;
    }
    proof {
        assert(all_args.skip(args@.len() as int) =~= Seq::<ArgV>::empty());
    }
    let ghost st_end = RunsState { cur: cur@, stages: spec_stages_view(stages@) };
    if cur.is_valid() {
        stages.push(cur);
        proof {
            assert(spec_stages_view(stages@) =~= spec_push_if_valid(st_end));
        }
    } else {
        proof {
            assert(spec_stages_view(stages@) =~= spec_push_if_valid(st_end));
        }
    }
    if stages.len() == 0 {
        stages.push(default_stage());
        proof {
            assert(spec_stages_view(stages@) =~= seq![spec_default_stagev()]);
        }
    }
    Result::Ok(stages)
}

} // verus!
