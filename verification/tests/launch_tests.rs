use scaloscope::launch::{
    backend_name, period_size, wrapper_args_from_cpal, AudioBackend, BufferSizeRange,
    StreamSettings,
};

#[test]
fn period_size_is_smallest_buffer_or_fallback() {
    assert_eq!(period_size(&BufferSizeRange::Range { min: 64, max: 4096 }), 64);
    assert_eq!(period_size(&BufferSizeRange::Unknown), 512);
}

#[test]
fn backend_names() {
    assert_eq!(backend_name(AudioBackend::Wasapi), "wasapi");
    assert_eq!(backend_name(AudioBackend::CoreAudio), "core-audio");
    assert_eq!(backend_name(AudioBackend::Alsa), "alsa");
}

#[test]
fn full_command_line() {
    let input = StreamSettings {
        sample_rate: 48000,
        buffer_size: BufferSizeRange::Range { min: 128, max: 8192 },
    };
    let args = wrapper_args_from_cpal(
        Some(AudioBackend::Alsa),
        &input,
        Some("hw:0".to_string()),
        Some("Speakers".to_string()),
    );
    assert_eq!(
        args,
        vec![
            "scaloscope",
            "--backend",
            "alsa",
            "--sample-rate",
            "48000",
            "--period-size",
            "128",
            "--input-device",
            "hw:0",
            "--output-device",
            "Speakers",
        ]
    );
}

#[test]
fn command_line_without_names_or_backend() {
    let input = StreamSettings { sample_rate: 44100, buffer_size: BufferSizeRange::Unknown };
    let args = wrapper_args_from_cpal(None, &input, None, None);
    assert_eq!(args, vec!["scaloscope", "--sample-rate", "44100", "--period-size", "512"]);
}

#[test]
fn command_line_with_output_name_only() {
    let input = StreamSettings {
        sample_rate: 96000,
        buffer_size: BufferSizeRange::Range { min: 32, max: 32 },
    };
    let args =
        wrapper_args_from_cpal(Some(AudioBackend::Wasapi), &input, None, Some("Out".to_string()));
    assert_eq!(
        args,
        vec![
            "scaloscope",
            "--backend",
            "wasapi",
            "--sample-rate",
            "96000",
            "--period-size",
            "32",
            "--output-device",
            "Out",
        ]
    );
}

#[test]
fn command_line_core_audio() {
    let input = StreamSettings { sample_rate: 0, buffer_size: BufferSizeRange::Unknown };
    let args =
        wrapper_args_from_cpal(Some(AudioBackend::CoreAudio), &input, Some("Mic".to_string()), None);
    assert_eq!(
        args,
        vec![
            "scaloscope",
            "--backend",
            "core-audio",
            "--sample-rate",
            "0",
            "--period-size",
            "512",
            "--input-device",
            "Mic",
        ]
    );
}
