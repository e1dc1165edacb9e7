use vstd::prelude::*;

verus! {

/// How lines are placed against the wall.
#[derive(Clone, Copy, Debug, PartialEq, Eq, Structural)]
pub enum Alignment {
    Right,
    Center,
}

/// Settings of one run.
#[derive(Debug)]
pub struct Config {
    pub alignment: Alignment,
    pub preserve_indent: bool,
    pub in_path: String,
    pub out_path: String,
}

/// Why the arguments of a run were refused.
#[derive(Clone, Copy, Debug, PartialEq, Eq, Structural)]
pub enum ConfigError {
    /// `--align` was followed by a value other than right, Right, center or Center.
    InvalidAlignment,
    /// No `--input`, or `--input` with no value after it.
    MissingInput,
    /// No `--output`, or `--output` with no value after it.
    MissingOutput,
    /// The input path does not name a readable file.
    InputNotFound,
}

/// What the arguments read so far have set.
pub struct ArgModel {
    pub alignment: Alignment,
    pub preserve_indent: bool,
    pub input: Option<Seq<char>>,
    pub output: Option<Seq<char>>,
}

/// An argument with surrounding whitespace removed.
pub uninterp spec fn trim_of(s: Seq<char>) -> Seq<char>;

/// Relies on `str::trim`: the argument without its leading and trailing
/// whitespace.
#[verifier::external_body]
fn trimmed(s: &str) -> (r: &str)
    ensures
        r@ == trim_of(s@),
{
    s.trim()
}

/// The settings before any argument is read.
pub open spec fn initial_model() -> ArgModel {
    ArgModel { alignment: Alignment::Right, preserve_indent: false, input: None, output: None }
}

/// The alignment that a value of `--align` names.
pub open spec fn alignment_named(v: Seq<char>) -> Option<Alignment> {
    if v == "right"@ || v == "Right"@ {
        Some(Alignment::Right)
    } else if v == "center"@ || v == "Center"@ {
        Some(Alignment::Center)
    } else {
        None
    }
}

/// Reads `args` from position `i` on, starting from the settings `st`; the
/// flag that an argument stands for is read from `keys` at the same position.
/// A later flag overrides an earlier one of the same kind.
pub open spec fn parse_from(args: Seq<Seq<char>>, keys: Seq<Seq<char>>, i: nat, st: ArgModel) -> Result<
    ArgModel,
    ConfigError,
>
    decreases args.len() - i,
{
    if i >= args.len() || i >= keys.len() {
        Ok(st)
    } else {
        let a = keys[i as int];
        if a == "--align"@ {
            if i + 1 < args.len() {
                match alignment_named(args[(i + 1) as int]) {
                    Some(al) => parse_from(args, keys, i + 2, ArgModel { alignment: al, ..st }),
                    None => Err(ConfigError::InvalidAlignment),
                }
            } else {
                Ok(st)
            }
        } else if a == "--preserve-indent"@ {
            parse_from(args, keys, i + 1, ArgModel { preserve_indent: true, ..st })
        } else if a == "--input"@ {
            if i + 1 < args.len() {
                parse_from(args, keys, i + 2, ArgModel { input: Some(args[(i + 1) as int]), ..st })
            } else {
                Err(ConfigError::MissingInput)
            }
        } else if a == "--output"@ {
            if i + 1 < args.len() {
                parse_from(args, keys, i + 2, ArgModel { output: Some(args[(i + 1) as int]), ..st })
            } else {
                Err(ConfigError::MissingOutput)
            }
        } else {
            parse_from(args, keys, i + 1, st)
        }
    }
}

/// The settings that a whole argument list gives, with the flag of each
/// argument read from `keys`, once both paths are known.
pub open spec fn parse_keyed(args: Seq<Seq<char>>, keys: Seq<Seq<char>>) -> Result<ArgModel, ConfigError> {
    match parse_from(args, keys, 0, initial_model()) {
        Ok(st) => if st.input is None {
            Err(ConfigError::MissingInput)
        } else if st.output is None {
            Err(ConfigError::MissingOutput)
        } else {
            Ok(st)
        },
        Err(e) => Err(e),
    }
}

/// The flags that an argument list spells: each argument trimmed.
pub open spec fn keys_of(args: Seq<Seq<char>>) -> Seq<Seq<char>> {
    Seq::new(args.len(), |i: int| trim_of(args[i]))
}

/// The settings that a whole argument list gives, each flag recognised with
/// surrounding whitespace.
pub open spec fn parse_args(args: Seq<Seq<char>>) -> Result<ArgModel, ConfigError> {
    parse_keyed(args, keys_of(args))
}

/// The text views of an argument list.
pub open spec fn args_of(args: Seq<String>) -> Seq<Seq<char>> {
    args.map_values(|s: String| s@)
}

/// Whether `c` holds the settings of `m`.
pub open spec fn config_matches(c: Config, m: ArgModel) -> bool {
    &&& c.alignment == m.alignment
    &&& c.preserve_indent == m.preserve_indent
    &&& m.input == Some(c.in_path@)
    &&& m.output == Some(c.out_path@)
}

spec fn opt_view(o: Option<String>) -> Option<Seq<char>> {
    match o {
        Some(s) => Some(s@),
        None => None,
    }
}

/// Whether two texts hold the same characters.
fn same_text(a: &str, b: &str) -> (r: bool)
    ensures
        r == (a@ == b@),
{
    let n = a.unicode_len();
    if n != b.unicode_len() {
        return false;
    }
    let mut i: usize = 0;
    while i < n
        invariant
            n == a@.len(),
            n == b@.len(),
            i <= n,
            forall|j: int| 0 <= j < i ==> a@[j] == b@[j],
        decreases n - i,
    {
        if a.get_char(i) != b.get_char(i) {
            return false;
        }
        i = i + 1;
    }
    assert(a@ =~= b@);
    true
}

/// The alignment that a value of `--align` names, if any.
fn alignment_of(v: &str) -> (r: Option<Alignment>)
    ensures
        r == alignment_named(v@),
{
    if same_text(v, "right") || same_text(v, "Right") {
        Some(Alignment::Right)
    } else if same_text(v, "center") || same_text(v, "Center") {
        Some(Alignment::Center)
    } else {
        None
    }
}

/// Builds the settings of a run from its arguments: `--align <right|center>`,
/// `--preserve-indent`, `--input <path>` and `--output <path>`, in any order,
/// each recognised with surrounding whitespace. Other arguments are passed
/// over.
pub fn set_config(args: &[String]) -> (r: Result<Config, ConfigError>)
    ensures
        match (r, parse_args(args_of(args@))) {
            (Ok(c), Ok(m)) => config_matches(c, m),
            (Err(e), Err(f)) => e == f,
            _ => false,
        },
{
    let mut keys: Vec<String> = Vec::new();
    let mut i: usize = 0;
    while i < args.len()
        invariant
            i <= args@.len(),
            keys@.len() == i,
            forall|j: int| 0 <= j < i ==> #[trigger] keys@[j]@ == trim_of(args@[j]@),
        decreases args@.len() - i,
    {
        keys.push(String::from_str(trimmed(args[i].as_str())));
        i = i + 1;
    }
    assert(args_of(keys@) =~= keys_of(args_of(args@)));
    config_from(args, &keys)
}

/// Builds the settings of a run from its arguments, where `keys[i]` is the
/// flag that `args[i]` stands for (`args[i]` itself is what a flag's value is
/// read from).
pub fn config_from(args: &[String], keys: &[String]) -> (r: Result<Config, ConfigError>)
    requires
        keys@.len() == args@.len(),
    ensures
        match (r, parse_keyed(args_of(args@), args_of(keys@))) {
            (Ok(c), Ok(m)) => config_matches(c, m),
            (Err(e), Err(f)) => e == f,
            _ => false,
        },
{
    let ghost av = args_of(args@);
    let ghost kv = args_of(keys@);
    let mut alignment = Alignment::Right;
    let mut preserve_indent = false;
    let mut input: Option<String> = None;
    let mut output: Option<String> = None;
    let mut i: usize = 0;
    while i < args.len()
        invariant
            av == args_of(args@),
            kv == args_of(keys@),
            keys@.len() == args@.len(),
            i <= args@.len(),
            parse_from(av, kv, 0, initial_model()) == parse_from(
                av,
                kv,
                i as nat,
                ArgModel {
                    alignment,
                    preserve_indent,
                    input: opt_view(input),
                    output: opt_view(output),
                },
            ),
        decreases args@.len() - i,
    {
        let ghost st = ArgModel {
            alignment,
            preserve_indent,
            input: opt_view(input),
            output: opt_view(output),
        };
        let key = keys[i].as_str();
        proof {
            assert(kv[i as int] == keys@[i as int]@);
        }
        if same_text(key, "--align") {
            if i + 1 < args.len() {
                proof {
                    assert(av[i + 1] == args@[i + 1]@);
                }
                match alignment_of(args[i + 1].as_str()) {
                    Some(al) => alignment = al,
                    None => return Err(ConfigError::InvalidAlignment),
                }
                i = i + 2;
            } else {
                i = i + 1;
                proof {
                    assert(parse_from(av, kv, i as nat, st) == Ok::<ArgModel, ConfigError>(st));
                }
            }
        } else if same_text(key, "--preserve-indent") {
            preserve_indent = true;
            i = i + 1;
        } else if same_text(key, "--input") {
            if i + 1 < args.len() {
                proof {
                    assert(av[i + 1] == args@[i + 1]@);
                }
                input = Some(args[i + 1].clone());
                i = i + 2;
            } else {
                return Err(ConfigError::MissingInput);
            }
        } else if same_text(key, "--output") {
            if i + 1 < args.len() {
                proof {
                    assert(av[i + 1] == args@[i + 1]@);
                }
                output = Some(args[i + 1].clone());
                i = i + 2;
            } else {
                return Err(ConfigError::MissingOutput);
            }
        } else {
            i = i + 1;
        }
    }
    match (input, output) {
        (Some(in_path), Some(out_path)) => Ok(Config { alignment, preserve_indent, in_path, out_path }),
        (None, _) => Err(ConfigError::MissingInput),
        (_, None) => Err(ConfigError::MissingOutput),
    }
}

} // verus!
