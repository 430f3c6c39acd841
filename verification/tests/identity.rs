use scoutty::probes::identity::{decode_da1_params, decode_da2_params};

#[test]
fn decode_da1_vt220_sixel() {
    assert_eq!(
        decode_da1_params(&[62, 4, 6]),
        "VT220, sixel, selective-erase (62;4;6)"
    );
}

#[test]
fn decode_da1_unknown_param() {
    assert_eq!(
        decode_da1_params(&[64, 4, 99]),
        "VT420, sixel, 99 (64;4;99)"
    );
}

#[test]
fn decode_da1_single_conformance() {
    assert_eq!(decode_da1_params(&[1]), "VT100 (1)");
}

#[test]
fn decode_da2_known_terminal() {
    assert_eq!(
        decode_da2_params(&[41, 382, 0]),
        "VT420, version 382 (41;382;0)"
    );
}

#[test]
fn decode_da2_unknown_terminal() {
    assert_eq!(
        decode_da2_params(&[84, 0, 0]),
        "type 84, version 0 (84;0;0)"
    );
}
