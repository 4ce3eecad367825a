use linstr::instrument::{Amplifier, Delay, DelayTap, Mixer};

#[test]
fn amplifier_takes_two_streams() {
    let amplifier: Amplifier<u8> = Amplifier::new();
    let shape = amplifier.declared_shape();
    assert_eq!((shape.in_value_streams, shape.in_control_streams, shape.out_value_streams), (2, 0, 1));
}

#[test]
fn mixer_takes_its_input_streams() {
    let mixer: Mixer<5, u8> = Mixer::new();
    let shape = mixer.declared_shape();
    assert_eq!((shape.in_value_streams, shape.in_control_streams, shape.out_value_streams), (5, 0, 1));
}

#[test]
fn delay_goes_round_its_buffer() {
    let mut delay: Delay<u8> = Delay::new(2);
    let shape = delay.declared_shape();
    assert_eq!((shape.in_value_streams, shape.in_control_streams, shape.out_value_streams), (1, 0, 1));
    assert_eq!(delay.advance(), DelayTap { write_index: 0, read_index: 1 });
    assert_eq!(delay.advance(), DelayTap { write_index: 1, read_index: 2 });
    assert_eq!(delay.advance(), DelayTap { write_index: 2, read_index: 0 });
    assert_eq!(delay.advance(), DelayTap { write_index: 0, read_index: 1 });
    assert_eq!(delay.buffer_index, 1);
}

#[test]
fn delay_of_zero_passes_through() {
    let mut delay: Delay<u8> = Delay::new(0);
    for _ in 0..3 {
        assert_eq!(delay.advance(), DelayTap { write_index: 0, read_index: 0 });
    }
}

#[test]
fn delayed_sample_comes_out_after_the_delay() {
    let mut delay: Delay<u8> = Delay::new(5);
    let mut buffer = vec![0.0f32; 65536];
    let mut output = Vec::new();
    for n in 0..20 {
        let tap = delay.advance();
        buffer[tap.write_index] = (n + 1) as f32;
        output.push(buffer[tap.read_index]);
    }
    for n in 0..20 {
        let expected = if n < 5 { 0.0 } else { (n - 5 + 1) as f32 };
        assert_eq!(output[n], expected);
    }
}

#[test]
fn longest_delay_stays_in_its_buffer() {
    let mut delay: Delay<u8> = Delay::new(u16::MAX);
    for n in 0..65536usize {
        let tap = delay.advance();
        assert_eq!(tap.write_index, n);
        assert_eq!(tap.read_index, (n + 1) % 65536);
    }
    assert_eq!(delay.buffer_index, 0);
}

#[test]
fn delay_position_is_checked() {
    let mut delay: Delay<u8> = Delay::new(2);
    assert!(delay.is_consistent());
    delay.buffer_index = 2;
    assert!(delay.is_consistent());
    delay.buffer_index = 3;
    assert!(!delay.is_consistent());
}
