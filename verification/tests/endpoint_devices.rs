use oaat::devices::{
    alsa_card_lines, alsa_device, aplay_args, choose_alsa_usb_dac, choose_usb_dac, flac_pipe_command,
    flac_pipe_format, is_usb_dac,
};
use oaat::mixer::{parse_int_value, AlsaMixer};

#[test]
fn usb_dac_classification() {
    assert!(is_usb_dac("Topping E30 USB"));
    assert!(is_usb_dac("Schiit DAC"));
    assert!(is_usb_dac("Some Unknown Box"));
    assert!(!is_usb_dac("MacBook Pro Speakers"));
    assert!(!is_usb_dac("HDMI Output"));
    assert!(is_usb_dac("Realtek USB Audio"));
}

#[test]
fn first_usb_dac_wins() {
    let devs = vec!["Built-in Output".to_string(), "Modi DAC".to_string(), "Other".to_string()];
    assert_eq!(choose_usb_dac(&devs).as_deref(), Some("Modi DAC"));
    let devs = vec!["Built-in Output".to_string(), "HDMI".to_string()];
    assert_eq!(choose_usb_dac(&devs), None);
}

#[test]
fn alsa_device_choice() {
    let devs = vec![
        "sysdefault:CARD=PCH".to_string(),
        "hw:CARD=Audio,DEV=0".to_string(),
        "front:CARD=USB,DEV=0".to_string(),
    ];
    assert_eq!(choose_alsa_usb_dac(&devs).as_deref(), Some("front:CARD=USB,DEV=0"));
    let devs = vec!["default".to_string(), "sysdefault:CARD=Audio".to_string()];
    assert_eq!(choose_alsa_usb_dac(&devs).as_deref(), Some("sysdefault:CARD=Audio"));
    let devs = vec!["sysdefault:CARD=HDMI".to_string(), "sysdefault:CARD=Pro".to_string()];
    assert_eq!(choose_alsa_usb_dac(&devs).as_deref(), Some("sysdefault:CARD=Pro"));
    let devs = vec!["default".to_string()];
    assert_eq!(choose_alsa_usb_dac(&devs), None);
}

#[test]
fn alsa_device_names() {
    assert_eq!(alsa_device(Some("hw:1,0")), "hw:1,0");
    assert_eq!(alsa_device(Some("plughw:CARD=X")), "plughw:CARD=X");
    assert_eq!(alsa_device(Some("sysdefault:CARD=X")), "sysdefault:CARD=X");
    assert_eq!(alsa_device(Some("My DAC")), "default");
    assert_eq!(alsa_device(None), "default");
    assert_eq!(flac_pipe_format(2), ("s32le", "S32_LE"));
    assert_eq!(flac_pipe_format(6), ("s16le", "S16_LE"));
}

#[test]
fn aplay_card_lines() {
    let out = "**** List of PLAYBACK Hardware Devices ****\ncard 0: PCH [HDA Intel PCH], device 0: ALC\n  Subdevices: 1/1\ncarte 1: USB [USB Audio], périphérique 0\r\n";
    assert_eq!(
        alsa_card_lines(out),
        vec![
            "card 0: PCH [HDA Intel PCH], device 0: ALC".to_string(),
            "carte 1: USB [USB Audio], périphérique 0".to_string()
        ]
    );
}

#[test]
fn mixer_commands() {
    let m = AlsaMixer::new(1);
    assert_eq!(m.set_volume(150).args, vec!["-c", "1", "cset", "numid=1", "100"]);
    assert_eq!(m.set_volume(42).args, vec!["-c", "1", "cset", "numid=1", "42"]);
    assert_eq!(m.set_mute(true).args, vec!["-c", "1", "cset", "numid=2", "off"]);
    assert_eq!(m.set_fir_filter("linear phase fast").unwrap().args, vec!["-c", "1", "cset", "numid=3", "5"]);
    assert_eq!(m.set_fir_filter("3").unwrap().args, vec!["-c", "1", "cset", "numid=3", "3"]);
    assert!(m.set_fir_filter("7").is_none());
    assert!(m.set_fir_filter("warm").is_none());
    assert_eq!(m.volume_query().args, vec!["-c", "1", "cget", "numid=1"]);
    let init = m.init(Some("brick wall"));
    assert_eq!(init.len(), 3);
    assert_eq!(init[0].args, vec!["-c", "1", "cset", "numid=2", "on"]);
    assert_eq!(init[1].args, vec!["-c", "1", "cset", "numid=3", "0"]);
    assert_eq!(init[2].args, vec!["-c", "1", "cget", "numid=1"]);
    assert_eq!(m.init(None).len(), 2);
}

#[test]
fn mixer_readings() {
    let out = "numid=1,iface=MIXER,name='Master'\n  ; type=INTEGER,access=rw\n  : values=87\n";
    assert_eq!(parse_int_value(out), Some(87));
    assert_eq!(AlsaMixer::get_volume(out), Some(87));
    assert_eq!(AlsaMixer::get_volume("  : values=255\n"), Some(100));
    assert_eq!(parse_int_value("nothing here"), None);
    assert_eq!(AlsaMixer::get_mute("  : values=off"), Some(true));
    assert_eq!(AlsaMixer::get_mute("  : values=on"), Some(false));
    assert_eq!(AlsaMixer::get_mute("?"), None);
}

#[test]
fn output_process_commands() {
    assert_eq!(
        aplay_args("hw:1,0", "S16_LE", 44100, 2),
        vec!["-D", "hw:1,0", "-f", "S16_LE", "-r", "44100", "-c", "2", "-t", "raw", "-q", "--buffer-time", "500000"]
    );
    assert_eq!(
        flac_pipe_command("default", 96000, 2),
        "ffmpeg -hide_banner -loglevel warning -err_detect ignore_err -f flac -i /dev/stdin -f s32le -ar 96000 -ac 2 - | aplay -D default -f S32_LE -r 96000 -c 2 -t raw -q --buffer-time 500000"
    );
    assert!(flac_pipe_command("hw:0", 48000, 6).contains("-f s16le -ar 48000 -ac 6 - | aplay -D hw:0 -f S16_LE"));
}
