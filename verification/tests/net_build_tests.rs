use resonance::build_utils::{parse_packer_args, PackAssetsConfig, PackerArgsError, PackerCommand};
use resonance::net::framing::{frame_with_length, unframe_with_length, FrameError};
use resonance::net::protocol::{MessageStats, NetworkChannel};
use resonance::net::transport::TransportConfig;

#[test]
fn test_serialize_with_length() {
    let msg = (123u32, "Test".to_string());
    let data = bincode::serialize(&msg).unwrap();
    let bytes = frame_with_length(&data);
    assert_eq!(&bytes[0..4], &(data.len() as u32).to_le_bytes());
    let inner = unframe_with_length(&bytes).unwrap();
    let decoded: (u32, String) = bincode::deserialize(inner).unwrap();
    assert_eq!(msg, decoded);
}

#[test]
fn framing_errors() {
    assert_eq!(unframe_with_length(&[1, 0, 0]), Err(FrameError::TooSmallForPrefix));
    assert_eq!(unframe_with_length(&[3, 0, 0, 0, 1, 2]), Err(FrameError::TooSmallForMessage));
    assert_eq!(unframe_with_length(&[2, 0, 0, 0, 1, 2, 9]), Ok(&[1u8, 2][..]));
    assert_eq!(unframe_with_length(&[0, 0, 0, 0]), Ok(&[][..]));
    assert_eq!(FrameError::TooSmallForPrefix.message(), "Buffer too small for length prefix");
    assert_eq!(FrameError::TooSmallForMessage.message(), "Buffer too small for message");
}

#[test]
fn channels_and_stats() {
    assert_eq!(u8::from(NetworkChannel::Unreliable), 0);
    assert_eq!(u8::from(NetworkChannel::Reliable), 1);
    let system: u8 = NetworkChannel::System.into();
    assert_eq!(system, 2);
    let s = MessageStats::default();
    assert_eq!(s.messages_sent + s.messages_received + s.bytes_sent + s.bytes_received + s.packets_lost, 0);
    let t = TransportConfig::default();
    assert_eq!(t.protocol_id, 0x4553_4F4E_414E_4345);
    assert_eq!(t.max_packet_size, 8192);
    assert_eq!((t.send_rate, t.receive_rate), (60, 60));
    assert_eq!(t.heartbeat_interval_secs, 1);
    assert_eq!(t.timeout_secs, 10);
}

fn args(v: &[&str]) -> Vec<String> {
    v.iter().map(|s| s.to_string()).collect()
}

#[test]
fn packer_command_line() {
    match parse_packer_args(&args(&["packer", "-i", "assets", "-o", "out.pak", "--compress"])) {
        Ok(PackerCommand::Pack { input, output, compress }) => {
            assert_eq!(input, "assets");
            assert_eq!(output, "out.pak");
            assert!(compress);
        }
        _ => panic!("rejected a valid command line"),
    }
    match parse_packer_args(&args(&["packer", "--output", "o", "--input", "i"])) {
        Ok(PackerCommand::Pack { input, output, compress }) => {
            assert_eq!((input.as_str(), output.as_str(), compress), ("i", "o", false));
        }
        _ => panic!("rejected a valid command line"),
    }
    assert_eq!(parse_packer_args(&args(&["packer", "-i"])).unwrap_err(), PackerArgsError::TooFewArguments);
    assert_eq!(
        parse_packer_args(&args(&["packer", "-o", "x", "-i"])).unwrap_err(),
        PackerArgsError::InputNeedsPath
    );
    assert_eq!(
        parse_packer_args(&args(&["packer", "-i", "x", "-o"])).unwrap_err(),
        PackerArgsError::OutputNeedsPath
    );
    assert_eq!(
        parse_packer_args(&args(&["packer", "-i", "x", "--fast"])).unwrap_err(),
        PackerArgsError::UnknownArgument("--fast".to_string())
    );
    assert_eq!(parse_packer_args(&args(&["packer", "-c", "-c"])).unwrap_err(), PackerArgsError::InputRequired);
    assert_eq!(
        parse_packer_args(&args(&["packer", "-i", "x", "-c"])).unwrap_err(),
        PackerArgsError::OutputRequired
    );
    assert!(matches!(parse_packer_args(&args(&["packer", "-c", "--help", "bogus"])), Ok(PackerCommand::Help)));
}

#[test]
fn pack_config() {
    let c = PackAssetsConfig::new();
    assert_eq!(c.assets_dir, "assets");
    assert_eq!(c.output_pak, "game_assets.pak");
    assert!(c.compress);
    assert_eq!(
        c.packer_args(),
        args(&[
            "run", "--package", "resonance", "--bin", "asset-packer", "--release", "--", "--input",
            "assets", "--output", "game_assets.pak", "--compress"
        ])
    );
    let c = PackAssetsConfig::new().assets_dir("a".into()).output_pak("b.pak".into()).compress(false);
    assert_eq!(c.packer_args().len(), 11);
    assert_eq!(c.packer_args()[8], "a");
}
