use windows_rust_counters::morse::{
    CodePoint, DecoderRx, Dialect, EncoderTx, MorseDecodeError, MorseDecoder, OFF, ON, Signal, ITU,
};
use windows_rust_counters::rx::{IteratorRx, Rx};
use windows_rust_counters::signal_error::SignalError;
use windows_rust_counters::tx::{Tx, VecCollectorTx};

const SOS: &[Signal] = &[
    ON, OFF, ON, OFF, ON, // S
    OFF, OFF, OFF, // letter space
    ON, ON, ON, OFF, ON, ON, ON, OFF, ON, ON, ON, // O
    OFF, OFF, OFF, // letter space
    ON, OFF, ON, OFF, ON, // S
    OFF, OFF, OFF, // end of message
];

const A_B: &[Signal] = &[
    ON, OFF, ON, ON, ON, // A
    OFF, OFF, OFF, OFF, OFF, OFF, OFF, // word space
    ON, ON, ON, OFF, ON, OFF, ON, OFF, ON, // B
    OFF, OFF, OFF, // end of message
];

fn decode_all(signal: Vec<Signal>) -> Result<String, SignalError> {
    let coder = DecoderRx::<ITU, _>::new(IteratorRx::new(signal));
    coder.collect_vec().map(|chars| chars.into_iter().collect())
}

#[test]
fn test_encode_simple() {
    let _encoder = ITU::encoder(VecCollectorTx::new(Vec::new()));

    assert_eq!(EncoderTx::<ITU, _>::encode_str("SOS"), SOS.to_vec());
}

#[test]
fn test_whitespace() {
    assert_eq!(EncoderTx::<ITU, _>::encode_str("a b"), A_B.to_owned());
}

#[test]
#[allow(non_snake_case)]
fn test_decode_SOS() {
    let decoded = decode_all(SOS.to_owned()).unwrap();
    assert_eq!(decoded, "SOS");
}

#[test]
fn test_decode_words() {
    let decoded = decode_all(A_B.to_owned()).unwrap();
    assert_eq!(decoded, "A B");
}

#[test]
fn test_decode_early_error() {
    let signal = vec![ON, ON];
    let mut coder = DecoderRx::<ITU, _>::new(IteratorRx::new(signal.clone()));
    let result = coder.recv();
    assert!(result.is_err());
    match result.err().unwrap() {
        SignalError::Morse(err) => {
            let expected = MorseDecodeError::from_signal(signal);
            match (err, expected) {
                (MorseDecodeError::Signal { signal: a }, MorseDecodeError::Signal { signal: b }) => {
                    assert_eq!(a, b)
                }
                _ => panic!("expected a signal error"),
            }
        }
        _ => panic!("expected a Morse error"),
    }
}

#[test]
fn encoder_sends_through_its_transmitter() {
    let mut encoder = ITU::encoder(VecCollectorTx::new(Vec::new()));
    for c in "SOS".chars() {
        encoder.send(c).unwrap();
    }
    assert_eq!(encoder.into_inner().into_buffer(), SOS.to_vec());
}

#[test]
fn unknown_characters_send_nothing() {
    assert_eq!(
        EncoderTx::<ITU, _>::encode_str("E#E"),
        EncoderTx::<ITU, _>::encode_str("EE")
    );
}

#[test]
fn spaces_collapse_into_one_word_pause() {
    assert_eq!(
        EncoderTx::<ITU, _>::encode_str("a   b"),
        EncoderTx::<ITU, _>::encode_str("a b")
    );
}

#[test]
fn roundtrip_of_a_sentence() {
    let text = "HELLO WORLD 42, OK?";
    let signal = EncoderTx::<ITU, _>::encode_str(text);
    assert_eq!(decode_all(signal).unwrap(), text);
}

#[test]
fn lowercase_decodes_as_uppercase() {
    let signal = EncoderTx::<ITU, _>::encode_str("morse");
    assert_eq!(decode_all(signal).unwrap(), "MORSE");
}

#[test]
fn alternative_zero_decodes_as_t() {
    let itu = ITU;
    assert_eq!(itu.decode_char(&[CodePoint::Dash]), Some('T'));
    assert_eq!(
        itu.encode_char('0').unwrap(),
        vec![CodePoint::Dash, CodePoint::Dash, CodePoint::Dash, CodePoint::Dash, CodePoint::Dash]
    );
}

#[test]
fn unknown_letter_is_an_error_and_decoding_goes_on() {
    // eight dots is no letter; then "E"
    let mut signal = Vec::new();
    for _ in 0..8 {
        signal.extend_from_slice(&[ON, OFF]);
    }
    signal.extend_from_slice(&[OFF, OFF, ON, OFF, OFF, OFF]);
    let mut coder = DecoderRx::<ITU, _>::new(IteratorRx::new(signal));
    match coder.recv() {
        Err(SignalError::Morse(MorseDecodeError::Letter { code_points })) => {
            assert_eq!(code_points, vec![CodePoint::Dot; 8])
        }
        _ => panic!("expected a letter error"),
    }
    assert_eq!(coder.recv().ok(), Some(Some('E')));
    assert_eq!(coder.recv().ok(), Some(None));
}

#[test]
fn too_long_on_is_an_error() {
    let mut coder = DecoderRx::<ITU, _>::new(IteratorRx::new(vec![ON, ON, ON, ON, OFF]));
    match coder.recv() {
        Err(SignalError::Morse(MorseDecodeError::Signal { signal })) => {
            assert_eq!(signal, vec![ON, ON, ON, ON])
        }
        _ => panic!("expected a signal error"),
    }
}

#[test]
fn can_encode_whitespace_and_known_letters() {
    let itu = ITU;
    assert!(itu.can_encode(' '));
    assert!(itu.can_encode('q'));
    assert!(!itu.can_encode('#'));
    assert_eq!(itu.table().len(), 52);
}

#[test]
fn code_point_units() {
    assert_eq!(CodePoint::Dash.duration(), 3);
    assert_eq!(CodePoint::WordPause.encode(), vec![OFF; 7]);
    assert!(CodePoint::Dot.is_dot_or_dash());
    assert!(CodePoint::LetterPause.is_space());
}

#[test]
fn signals_print_as_stars_and_spaces() {
    assert_eq!(windows_rust_counters::morse::signal_text(&[ON, OFF, ON, ON, OFF]), "* ** ");
    assert_eq!(windows_rust_counters::morse::signal_text(&[]), "");
}

fn decode_by_units(signal: &[Signal]) -> (String, usize) {
    let mut decoder = MorseDecoder::<ITU>::new();
    let mut out = String::new();
    let mut errors = 0;
    for s in signal {
        match decoder.push_signal(*s) {
            Some(Ok(c)) => out.push(c),
            Some(Err(_)) => errors += 1,
            None => {}
        }
    }
    if decoder.finish().is_some() {
        errors += 1;
    }
    (out, errors)
}

#[test]
fn unit_decoder_decodes_like_the_receiver() {
    assert_eq!(decode_by_units(SOS), ("SOS".to_string(), 0));
    assert_eq!(decode_by_units(A_B), ("A B".to_string(), 0));
    let signal = EncoderTx::<ITU, _>::encode_str("hello world");
    assert_eq!(decode_by_units(&signal), ("HELLO WORLD".to_string(), 0));
    assert_eq!(decode_all(signal).unwrap(), "HELLO WORLD");
}

#[test]
fn unit_decoder_reports_bad_signals() {
    // four units of ON are no symbol
    let (out, errors) = decode_by_units(&[ON, ON, ON, ON, OFF, OFF, OFF, ON, OFF, OFF, OFF]);
    assert_eq!(errors, 1);
    assert_eq!(out, "E");
    // an ON of two units at the end of the signal
    let (out, errors) = decode_by_units(&[ON, ON]);
    assert_eq!(out, "");
    assert_eq!(errors, 1);
}

#[test]
fn table_characters_decode_from_their_codes() {
    let itu = ITU;
    for (c, _) in itu.table() {
        let code = itu.encode_char(c).unwrap();
        assert_eq!(itu.decode_char(&code), Some(c));
    }
    assert_eq!(itu.encode_char('k'), itu.encode_char('K'));
    assert_eq!(itu.decode_char(&[CodePoint::Dash]), Some('T'));
}
