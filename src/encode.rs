//! The encoder side: backends, the job configuration, output names, the
//! argument list of one encode attempt, and the reading of its exit status.
use vstd::prelude::*;
use crate::text::{chars_of, decimal, decimal_exec, string_of, lemma_decimal_injective};
use crate::paths::{has_ext, dir_of, stem_of, ext_of, with_stem, split_path, push_all};

verus! {

/// The encoder backends the external tool is driven with.
#[derive(Clone, Copy, Debug, PartialEq, Eq, Structural)]
pub enum Backend {
    /// Software H.265 (`libx265`); takes free-form tuning parameters.
    H265Software,
    /// AV1 (`av1`); takes no tuning parameters.
    Av1,
}

/// The selector handed to the external tool, also written into output names.
pub open spec fn backend_name(b: Backend) -> Seq<char> {
    match b {
        Backend::H265Software => "libx265"@,
        Backend::Av1 => "av1"@,
    }
}

/// The marker whose presence in a path shows an output of an earlier run.
pub open spec fn backend_tag(b: Backend) -> Seq<char> {
    match b {
        Backend::H265Software => "x265"@,
        Backend::Av1 => "av1"@,
    }
}

pub open spec fn accepts_tuning(b: Backend) -> bool {
    b == Backend::H265Software
}

impl Backend {
    /// The backend selected by `s`, if `s` names one.
    pub fn parse(s: &str) -> (r: Option<Backend>)
        ensures
            r == (if s@ == "libx265"@ {
                Some(Backend::H265Software)
            } else if s@ == "av1"@ {
                Some(Backend::Av1)
            } else {
                None
            }),
    {
        let c = chars_of(s);
        if crate::text::same_chars(&c, &chars_of("libx265")) {
            Some(Backend::H265Software)
        } else if crate::text::same_chars(&c, &chars_of("av1")) {
            Some(Backend::Av1)
        } else {
            None
        }
    }

    pub fn name(&self) -> (r: String)
        ensures
            r@ == backend_name(*self),
    {
        match self {
            Backend::H265Software => String::from_str("libx265"),
            Backend::Av1 => String::from_str("av1"),
        }
    }

    pub fn tag(&self) -> (r: String)
        ensures
            r@ == backend_tag(*self),
    {
        match self {
            Backend::H265Software => String::from_str("x265"),
            Backend::Av1 => String::from_str("av1"),
        }
    }

    pub fn accepts_tuning(&self) -> (r: bool)
        ensures
            r == accepts_tuning(*self),
    {
        match self {
            Backend::H265Software => true,
            Backend::Av1 => false,
        }
    }
}

/// Reasons a batch cannot start.
#[derive(Clone, Copy, Debug, PartialEq, Eq, Structural)]
pub enum ConfigError {
    UnknownEncoder,
    QualityOutOfRange,
    NotADirectory,
    ToolNotFound,
}

/// The configuration of a whole batch, resolved once before it starts.
pub struct JobConfig {
    /// Initial quality target, from 1 to 100.
    pub quality: u8,
    pub backend: Backend,
    /// Free-form encoder parameters, for backends that take tuning.
    pub extra_params: String,
    pub pix_fmt: String,
    pub preset: String,
    /// Downmix multi-channel audio to stereo.
    pub downmix: bool,
    /// Transient failures tolerated at one target before the file is given
    /// up; `None` retries without limit.
    pub max_transient_retries: Option<u32>,
}

impl JobConfig {
    pub open spec fn wf(&self) -> bool {
        1 <= self.quality <= 100
    }

    /// Checks the encoder name and the quality target and builds the
    /// configuration; the encoder is checked first.
    pub fn new(
        quality: i32,
        encoder: &str,
        extra_params: String,
        pix_fmt: String,
        preset: String,
        downmix: bool,
        max_transient_retries: Option<u32>,
    ) -> (r: Result<JobConfig, ConfigError>)
        ensures
            encoder@ != "libx265"@ && encoder@ != "av1"@ ==> r == Err::<JobConfig, ConfigError>(
                ConfigError::UnknownEncoder,
            ),
            (encoder@ == "libx265"@ || encoder@ == "av1"@) && !(1 <= quality <= 100) ==> r
                == Err::<JobConfig, ConfigError>(ConfigError::QualityOutOfRange),
            (encoder@ == "libx265"@ || encoder@ == "av1"@) && 1 <= quality <= 100 ==> r is Ok,
            r matches Ok(c) ==> c.wf() && c.quality == quality && backend_name(c.backend)
                == encoder@ && c.extra_params == extra_params && c.pix_fmt == pix_fmt && c.preset
                == preset && c.downmix == downmix && c.max_transient_retries
                == max_transient_retries,
    {
        let backend = match Backend::parse(encoder) {
            Some(b) => b,
            None => {
                return Err(ConfigError::UnknownEncoder);
            },
        };
        if quality < 1 || quality > 100 {
            return Err(ConfigError::QualityOutOfRange);
        }
        Ok(
            JobConfig {
                quality: quality as u8,
                backend,
                extra_params,
                pix_fmt,
                preset,
                downmix,
                max_transient_retries,
            },
        )
    }
}

/// Where the external tool was found.
#[derive(Clone, Copy, Debug, PartialEq, Eq, Structural)]
pub enum ToolLocation {
    WorkingDir,
    SearchPath,
}

/// Chooses where to run the external tool from: the working directory when it
/// is there, else the system search path; an error when it is in neither.
pub fn locate_tool(in_working_dir: bool, on_search_path: bool) -> (r: Result<
    ToolLocation,
    ConfigError,
>)
    ensures
        r == (if in_working_dir {
            Ok::<ToolLocation, ConfigError>(ToolLocation::WorkingDir)
        } else if on_search_path {
            Ok(ToolLocation::SearchPath)
        } else {
            Err(ConfigError::ToolNotFound)
        }),
{
    if in_working_dir {
        Ok(ToolLocation::WorkingDir)
    } else if on_search_path {
        Ok(ToolLocation::SearchPath)
    } else {
        Err(ConfigError::ToolNotFound)
    }
}

/// What one run of the external encoder came to.
#[derive(Clone, Copy, Debug, PartialEq, Eq, Structural)]
pub enum EncodeOutcome {
    Success,
    /// The encoder searched its parameters and could not meet the target.
    QualityUnreachable,
    /// A failure of the environment or of resources; worth repeating.
    Transient,
    /// The encoder could not be launched or crashed; the batch stops.
    Fatal,
}

/// The exit code by which the encoder signals a transient failure.
pub const TRANSIENT_EXIT: i32 = 145;

/// Reads the end of an encoder run: `launched` tells whether the process
/// started, `code` is its exit code (`None` when it was ended by a signal).
pub fn outcome_of_exit(launched: bool, code: Option<i32>) -> (r: EncodeOutcome)
    ensures
        r == (if !launched {
            EncodeOutcome::Fatal
        } else {
            match code {
                None => EncodeOutcome::Fatal,
                Some(c) => if c == 0 {
                    EncodeOutcome::Success
                } else if c == TRANSIENT_EXIT {
                    EncodeOutcome::Transient
                } else {
                    EncodeOutcome::QualityUnreachable
                },
            }
        }),
{
    if !launched {
        return EncodeOutcome::Fatal;
    }
    match code {
        None => EncodeOutcome::Fatal,
        Some(c) => {
            if c == 0 {
                EncodeOutcome::Success
            } else if c == TRANSIENT_EXIT {
                EncodeOutcome::Transient
            } else {
                EncodeOutcome::QualityUnreachable
            }
        },
    }
}

/// `{dir}{stem}.{backend}.{quality}.{ext}`: the output of encoding `s` at
/// `quality`, beside it.
pub open spec fn output_of(s: Seq<char>, backend: Seq<char>, quality: nat) -> Seq<char> {
    with_stem(s, stem_of(s) + seq!['.'] + backend + seq!['.'] + decimal(quality))
}

/// Outputs of one input at two different targets never coincide, so a retry
/// never overwrites the output of an earlier attempt.
pub proof fn lemma_outputs_distinct(s: Seq<char>, backend: Seq<char>, q1: nat, q2: nat)
    requires
        q1 != q2,
    ensures
        output_of(s, backend, q1) != output_of(s, backend, q2),
{
    let pre = dir_of(s) + stem_of(s) + seq!['.'] + backend + seq!['.'];
    let post = seq!['.'] + ext_of(s);
    let d1 = decimal(q1);
    let d2 = decimal(q2);
    assert(output_of(s, backend, q1) =~= pre + d1 + post);
    assert(output_of(s, backend, q2) =~= pre + d2 + post);
    if output_of(s, backend, q1) == output_of(s, backend, q2) {
        let o = pre + d1 + post;
        assert(d1.len() == d2.len());
        assert(o.subrange(pre.len() as int, (pre.len() + d1.len()) as int) =~= d1);
        assert((pre + d2 + post).subrange(pre.len() as int, (pre.len() + d2.len()) as int) =~= d2);
        lemma_decimal_injective(q1, q2);
    }
}

/// The output path for encoding `input` with `backend` at `quality`; `None`
/// when `input` has no extension.
pub fn output_path(input: &str, backend: Backend, quality: u8) -> (r: Option<String>)
    ensures
        r is Some <==> has_ext(input@),
        r matches Some(o) ==> o@ == output_of(input@, backend_name(backend), quality as nat),
{
    let p = chars_of(input);
    match split_path(&p) {
        None => None,
        Some(parts) => {
            let name = chars_of(backend.name().as_str());
            let digits = decimal_exec(quality);
            let mut r = parts.dir;
            push_all(&mut r, &parts.stem);
            r.push('.');
            push_all(&mut r, &name);
            r.push('.');
            push_all(&mut r, &digits);
            r.push('.');
            push_all(&mut r, &parts.ext);
            assert(r@ =~= output_of(input@, backend_name(backend), quality as nat));
            Some(string_of(&r))
        },
    }
}

pub open spec fn views(v: Seq<String>) -> Seq<Seq<char>> {
    v.map_values(|a: String| a@)
}

/// The arguments of one attempt: the input, the target, audio converted to
/// AAC (and downmixed when asked), the backend, the tuning parameters when the
/// backend takes them, and the output.
pub open spec fn encode_args_of(
    input: Seq<char>,
    output: Seq<char>,
    quality: nat,
    c: JobConfig,
) -> Seq<Seq<char>> {
    seq!["auto-encode"@, "-i"@, input, "--min-vmaf"@, decimal(quality), "--acodec"@, "aac"@] + (
    if c.downmix {
        seq!["--downmix-to-stereo"@]
    } else {
        Seq::empty()
    }) + seq!["-e"@, backend_name(c.backend)] + (if accepts_tuning(c.backend) {
        seq!["--enc"@, c.extra_params@, "--pix-format"@, c.pix_fmt@, "--preset"@, c.preset@]
    } else {
        Seq::empty()
    }) + seq!["-o"@, output]
}

fn push_arg(v: &mut Vec<String>, s: String)
    ensures
        final(v)@ == old(v)@.push(s),
        views(final(v)@) == views(old(v)@).push(s@),
{
    v.push(s);
    assert(views(v@) =~= views(old(v)@).push(s@));
}

/// The argument list of the external tool for encoding `input` into `output`
/// at `quality`.
pub fn encode_args(input: &str, output: &str, quality: u8, config: &JobConfig) -> (r: Vec<String>)
    ensures
        views(r@) == encode_args_of(input@, output@, quality as nat, *config),
{
    let mut r: Vec<String> = Vec::new();
    assert(views(r@) =~= Seq::<Seq<char>>::empty());
    push_arg(&mut r, String::from_str("auto-encode"));
    push_arg(&mut r, String::from_str("-i"));
    push_arg(&mut r, String::from_str(input));
    push_arg(&mut r, String::from_str("--min-vmaf"));
    push_arg(&mut r, string_of(&decimal_exec(quality)));
    push_arg(&mut r, String::from_str("--acodec"));
    push_arg(&mut r, String::from_str("aac"));
    if config.downmix {
        push_arg(&mut r, String::from_str("--downmix-to-stereo"));
    }
    push_arg(&mut r, String::from_str("-e"));
    push_arg(&mut r, config.backend.name());
    if config.backend.accepts_tuning() {
        push_arg(&mut r, String::from_str("--enc"));
        push_arg(&mut r, config.extra_params.clone());
        push_arg(&mut r, String::from_str("--pix-format"));
        push_arg(&mut r, config.pix_fmt.clone());
        push_arg(&mut r, String::from_str("--preset"));
        push_arg(&mut r, config.preset.clone());
    }
    push_arg(&mut r, String::from_str("-o"));
    push_arg(&mut r, String::from_str(output));
    assert(views(r@) =~= encode_args_of(input@, output@, quality as nat, *config));
    r
}

} // verus!
