//! The command line that the standalone launcher hands to the plugin host,
//! built from the audio devices and the stream configuration chosen.

use vstd::prelude::*;

use crate::text::{decimal, format_u32};

verus! {

/// The audio back end that the host is pinned to, one per platform family.
#[derive(Clone, Copy, Debug, PartialEq, Eq, Structural)]
pub enum AudioBackend {
    /// Windows.
    Wasapi,
    /// macOS.
    CoreAudio,
    /// Linux.
    Alsa,
}

/// The buffer sizes that a device supports for a stream.
#[derive(Clone, Copy, Debug, PartialEq, Eq, Structural)]
pub enum BufferSizeRange {
    /// Any size from `min` to `max` frames.
    Range { min: u32, max: u32 },
    /// The platform cannot tell before the stream starts.
    Unknown,
}

/// What the launcher reads of the input stream configuration.
#[derive(Clone, Copy, Debug, PartialEq, Eq, Structural)]
pub struct StreamSettings {
    /// Frames per second.
    pub sample_rate: u32,
    /// The supported buffer sizes.
    pub buffer_size: BufferSizeRange,
}

/// The period size used when the device does not say.
pub const FALLBACK_PERIOD_SIZE: u32 = 512;

/// The name that the host's `--backend` option takes for `backend`.
pub open spec fn backend_text(backend: AudioBackend) -> Seq<char> {
    match backend {
        AudioBackend::Wasapi => "wasapi"@,
        AudioBackend::CoreAudio => "core-audio"@,
        AudioBackend::Alsa => "alsa"@,
    }
}

/// The period size for a buffer range: its smallest size, or the fallback.
pub open spec fn period_size_of(buffer: BufferSizeRange) -> u32 {
    match buffer {
        BufferSizeRange::Range { min, .. } => min,
        BufferSizeRange::Unknown => FALLBACK_PERIOD_SIZE,
    }
}

/// The text of an optional string.
pub open spec fn option_text(name: Option<String>) -> Option<Seq<char>> {
    match name {
        Some(s) => Some(s@),
        None => None,
    }
}

/// `--backend <name>`, when a back end is pinned.
pub open spec fn backend_args(backend: Option<AudioBackend>) -> Seq<Seq<char>> {
    match backend {
        Some(b) => seq!["--backend"@, backend_text(b)],
        None => Seq::empty(),
    }
}

/// `<flag> <name>`, when the device has a name.
pub open spec fn device_args(flag: Seq<char>, name: Option<Seq<char>>) -> Seq<Seq<char>> {
    match name {
        Some(n) => seq![flag, n],
        None => Seq::empty(),
    }
}

/// The whole command line, program name first.
pub open spec fn launch_args(
    backend: Option<AudioBackend>,
    input: StreamSettings,
    input_device: Option<Seq<char>>,
    output_device: Option<Seq<char>>,
) -> Seq<Seq<char>> {
    seq!["scaloscope"@] + backend_args(backend) + seq![
        "--sample-rate"@,
        decimal(input.sample_rate as nat),
        "--period-size"@,
        decimal(period_size_of(input.buffer_size) as nat),
    ] + device_args("--input-device"@, input_device) + device_args(
        "--output-device"@,
        output_device,
    )
}

/// The texts of a list of strings.
pub open spec fn texts(args: Seq<String>) -> Seq<Seq<char>> {
    args.map_values(|s: String| s@)
}

/// The name that the host's `--backend` option takes for `backend`.
pub fn backend_name(backend: AudioBackend) -> (name: &'static str)
    ensures
        name@ == backend_text(backend),
{
    match backend {
        AudioBackend::Wasapi => "wasapi",
        AudioBackend::CoreAudio => "core-audio",
        AudioBackend::Alsa => "alsa",
    }
}

/// The period size for a buffer range: its smallest size, or 512 frames when
/// the device cannot tell.
pub fn period_size(buffer: &BufferSizeRange) -> (frames: u32)
    ensures
        frames == period_size_of(*buffer),
        buffer matches BufferSizeRange::Range { min, .. } ==> frames == min,
        *buffer == BufferSizeRange::Unknown ==> frames == 512,
{
    match buffer {
        BufferSizeRange::Range { min, .. } => *min,
        BufferSizeRange::Unknown => FALLBACK_PERIOD_SIZE,
    }
}

fn push_text(args: &mut Vec<String>, arg: String)
    ensures
        texts(final(args)@) == texts(old(args)@).push(arg@),
{
    let ghost before = args@;
    args.push(arg);
    assert(texts(args@) =~= texts(before).push(arg@));
}

/// The command line for the standalone host: the program name, the pinned
/// back end if any, the input stream's sample rate and period size, and the
/// names of the input and output devices where they have one.
pub fn wrapper_args_from_cpal(
    backend: Option<AudioBackend>,
    input: &StreamSettings,
    input_device: Option<String>,
    output_device: Option<String>,
) -> (args: Vec<String>)
    ensures
        texts(args@) == launch_args(
            backend,
            *input,
            option_text(input_device),
            option_text(output_device),
        ),
        texts(args@).len() > 0,
        texts(args@)[0] == "scaloscope"@,
        output_device matches Some(n) ==> {
            &&& texts(args@).len() >= 2
            &&& texts(args@)[texts(args@).len() - 2] == "--output-device"@
            &&& texts(args@)[texts(args@).len() - 1] == n@
        },
{
    let ghost in_name = option_text(input_device);
    let ghost out_name = option_text(output_device);
    let mut args: Vec<String> = Vec::new();
    assert(texts(args@) =~= Seq::<Seq<char>>::empty());
    push_text(&mut args, "scaloscope".to_owned());
    match backend {
        Some(b) => {
            push_text(&mut args, "--backend".to_owned());
            push_text(&mut args, backend_name(b).to_owned());
        },
        None => {},
    }
    let ghost head = texts(args@);
    assert(head =~= seq!["scaloscope"@] + backend_args(backend));
    push_text(&mut args, "--sample-rate".to_owned());
    push_text(&mut args, format_u32(input.sample_rate));
    push_text(&mut args, "--period-size".to_owned());
    push_text(&mut args, format_u32(period_size(&input.buffer_size)));
    let ghost middle = texts(args@);
    assert(middle =~= seq!["scaloscope"@] + backend_args(backend) + seq![
        "--sample-rate"@,
        decimal(input.sample_rate as nat),
        "--period-size"@,
        decimal(period_size_of(input.buffer_size) as nat),
    ]);
    match input_device {
        Some(name) => {
            push_text(&mut args, "--input-device".to_owned());
            push_text(&mut args, name);
        },
        None => {},
    }
    let ghost with_input = texts(args@);
    assert(with_input =~= middle + device_args("--input-device"@, in_name));
    match output_device {
        Some(name) => {
            push_text(&mut args, "--output-device".to_owned());
            push_text(&mut args, name);
        },
        None => {},
    }
    assert(texts(args@) =~= with_input + device_args("--output-device"@, out_name));
    proof {
        lemma_launch_args_shape(backend, *input, in_name, out_name);
    }
    args
}

// ---------------------------------------------------------------------------
// Laws
// ---------------------------------------------------------------------------

/// Different back ends get different names on the command line.
pub proof fn lemma_backend_names_distinct(a: AudioBackend, b: AudioBackend)
    ensures
        a != b ==> backend_text(a) != backend_text(b),
        backend_text(a).len() > 0,
{
    reveal_strlit("wasapi");
    reveal_strlit("core-audio");
    reveal_strlit("alsa");
    assert("wasapi"@[0] != "alsa"@[0]);
    assert("wasapi"@[0] != "core-audio"@[0]);
    assert("alsa"@[0] != "core-audio"@[0]);
}

/// The period size of a known range is its smallest size, whatever its
/// largest; with no range it is 512 frames.
pub proof fn lemma_period_size_is_min(min: u32, max: u32)
    ensures
        period_size_of(BufferSizeRange::Range { min, max }) == min,
        period_size_of(BufferSizeRange::Unknown) == 512,
{
}

/// The period size does not depend on the largest supported buffer size.
pub proof fn lemma_period_size_ignores_max(min: u32, a: u32, b: u32)
    ensures
        period_size_of(BufferSizeRange::Range { min, max: a }) == period_size_of(
            BufferSizeRange::Range { min, max: b },
        ),
{
}

/// The command line starts with the program name, and a named output device
/// is always handed on, as its last two arguments, whatever the back end.
pub proof fn lemma_launch_args_shape(
    backend: Option<AudioBackend>,
    input: StreamSettings,
    input_device: Option<Seq<char>>,
    output_device: Option<Seq<char>>,
)
    ensures
        launch_args(backend, input, input_device, output_device).len() > 0,
        launch_args(backend, input, input_device, output_device)[0] == "scaloscope"@,
        output_device matches Some(n) ==> {
            let a = launch_args(backend, input, input_device, output_device);
            &&& a.len() >= 2
            &&& a[a.len() - 2] == "--output-device"@
            &&& a[a.len() - 1] == n
        },
{
}

/// Naming the output device adds exactly `--output-device <name>` at the end,
/// whatever the back end, the stream settings and the input device.
pub proof fn lemma_output_device_appended(
    backend: Option<AudioBackend>,
    input: StreamSettings,
    input_device: Option<Seq<char>>,
    name: Seq<char>,
)
    ensures
        launch_args(backend, input, input_device, Some(name)) == launch_args(
            backend,
            input,
            input_device,
            None,
        ) + seq!["--output-device"@, name],
{
    assert(launch_args(backend, input, input_device, Some(name)) =~= launch_args(
        backend,
        input,
        input_device,
        None,
    ) + seq!["--output-device"@, name]);
}

/// Naming the input device adds exactly `--input-device <name>` after the
/// stream settings and before any output device.
pub proof fn lemma_input_device_appended(
    backend: Option<AudioBackend>,
    input: StreamSettings,
    name: Seq<char>,
    output_device: Option<Seq<char>>,
)
    ensures
        launch_args(backend, input, Some(name), output_device) == launch_args(
            backend,
            input,
            None,
            None,
        ) + seq!["--input-device"@, name] + device_args("--output-device"@, output_device),
        launch_args(backend, input, None, output_device) == launch_args(backend, input, None, None)
            + device_args("--output-device"@, output_device),
{
    assert(launch_args(backend, input, Some(name), output_device) =~= launch_args(
        backend,
        input,
        None,
        None,
    ) + seq!["--input-device"@, name] + device_args("--output-device"@, output_device));
    assert(launch_args(backend, input, None, output_device) =~= launch_args(
        backend,
        input,
        None,
        None,
    ) + device_args("--output-device"@, output_device));
}

/// Without device names the command line is the program name, the pinned back
/// end if any, then the sample rate and the period size in decimal; the
/// back end adds exactly `--backend <name>` after the program name.
pub proof fn lemma_launch_args_without_devices(
    backend: AudioBackend,
    sample_rate: u32,
    min: u32,
    max: u32,
)
    ensures
        launch_args(
            None,
            StreamSettings { sample_rate, buffer_size: BufferSizeRange::Range { min, max } },
            None,
            None,
        ) == seq![
            "scaloscope"@,
            "--sample-rate"@,
            decimal(sample_rate as nat),
            "--period-size"@,
            decimal(min as nat),
        ],
        launch_args(
            Some(backend),
            StreamSettings { sample_rate, buffer_size: BufferSizeRange::Range { min, max } },
            None,
            None,
        ) == seq![
            "scaloscope"@,
            "--backend"@,
            backend_text(backend),
            "--sample-rate"@,
            decimal(sample_rate as nat),
            "--period-size"@,
            decimal(min as nat),
        ],
{
    let s = StreamSettings { sample_rate, buffer_size: BufferSizeRange::Range { min, max } };
    assert(launch_args(None, s, None, None) =~= seq![
        "scaloscope"@,
        "--sample-rate"@,
        decimal(sample_rate as nat),
        "--period-size"@,
        decimal(min as nat),
    ]);
    assert(launch_args(Some(backend), s, None, None) =~= seq![
        "scaloscope"@,
        "--backend"@,
        backend_text(backend),
        "--sample-rate"@,
        decimal(sample_rate as nat),
        "--period-size"@,
        decimal(min as nat),
    ]);
}

} // verus!
