use fmodeparser::octal::{octal_digits_to_u32, octal_string};
use fmodeparser::{
    digit_to_permission, file_type_number_to_symbol, is_valid_file_type, is_valid_triad,
    permission_to_digit, symbol_to_file_type_number, FullPermission, FullPermissionBuilder,
    ModeParser, OwnersKind,
};

const TRIADS: [&str; 8] = ["---", "--x", "-w-", "-wx", "r--", "r-x", "rw-", "rwx"];
const KIND_SYMBOLS: [char; 7] = ['-', 'd', 'l', 'c', 'b', 'p', 's'];

#[test]
fn triad_table_round_trip() {
    for (digit, triad) in TRIADS.iter().enumerate() {
        let d = permission_to_digit(triad);
        assert_eq!(d, digit.to_string());
        assert_eq!(digit_to_permission(&d), *triad);
    }
}

#[test]
fn kind_table_round_trip() {
    for symbol in KIND_SYMBOLS {
        let code = symbol_to_file_type_number(symbol);
        assert_eq!(file_type_number_to_symbol(&code), symbol);
    }
}

#[test]
fn triad_table_default_fallback() {
    assert_eq!(permission_to_digit("rrr"), "0");
    assert_eq!(permission_to_digit(""), "0");
    assert_eq!(permission_to_digit("rw"), "0");
    assert_eq!(permission_to_digit("rwxx"), "0");
    assert_eq!(permission_to_digit("wrx"), "0");
    assert_eq!(digit_to_permission("0"), "---");
    assert_eq!(digit_to_permission("8"), "---");
    assert_eq!(digit_to_permission("9"), "---");
    assert_eq!(digit_to_permission("42"), "---");
    assert_eq!(digit_to_permission(""), "---");
}

#[test]
fn kind_table_default_fallback() {
    assert_eq!(file_type_number_to_symbol("100"), '-');
    assert_eq!(file_type_number_to_symbol("000"), '-');
    assert_eq!(file_type_number_to_symbol("777"), '-');
    assert_eq!(file_type_number_to_symbol("04"), '-');
    assert_eq!(file_type_number_to_symbol(""), '-');
    assert_eq!(symbol_to_file_type_number('z'), "100");
    assert_eq!(symbol_to_file_type_number('-'), "100");
}

#[test]
fn mode_round_trip_samples() {
    // One mode for each of the seven recognized file kinds.
    for octal in ["100644", "040755", "120777", "020620", "060660", "010600", "140755"] {
        let mode = u32::from_str_radix(octal, 8).unwrap();
        let permission = FullPermission::new(mode).unwrap();
        assert_eq!(permission.get_mode(), mode);
        assert_eq!(permission.mode_as_octal(), octal);
    }
}

#[test]
fn mode_zero_does_not_round_trip() {
    // An unrecognized kind code (000 here) falls back to the regular-file
    // code 100 when the mode is recomposed.
    let permission = FullPermission::new(0).unwrap();
    assert_eq!(permission.render_symbolic(), "----------");
    assert_eq!(permission.get_file_type(), '-');
    assert_eq!(permission.get_mode(), 32768);
    assert_eq!(permission.mode_as_octal(), "100000");
}

#[test]
fn mode_range_boundaries() {
    let top = FullPermission::new(262143).unwrap();
    assert_eq!(top.render_symbolic(), "-rwxrwxrwx");
    assert_eq!(top.mode_as_octal(), "100777");

    let err = FullPermission::new(262144).unwrap_err();
    assert_eq!(
        err.message(),
        "the mode that was provided is not valid 6 digit decimal number that can be parsed correctly into octal mode :1000000"
    );
}

#[test]
fn symbolic_round_trip_samples() {
    for symbolic in ["-rw-r--r--", "drwxr-xr--", "l---rwx-w-", "srwxrwxrwx", "p---------"] {
        let chars: Vec<char> = symbolic.chars().collect();
        let kind = chars[0];
        let user: String = chars[1..4].iter().collect();
        let group: String = chars[4..7].iter().collect();
        let other: String = chars[7..10].iter().collect();
        let permission = FullPermissionBuilder::new()
            .file_type(kind)
            .user(&user)
            .group(&group)
            .other(&other)
            .build()
            .unwrap();
        assert_eq!(permission.render_symbolic(), symbolic);
    }
}

#[test]
fn builder_digits_follow_call_order() {
    // The builder appends digits in call order, so calling the components
    // out of order composes a different mode.
    let permission = FullPermissionBuilder::new()
        .user("rw-")
        .group("r--")
        .other("r--")
        .file_type('-')
        .build();
    // Digits 644100 read as octal are in range and decompose with kind
    // code 644, which is unrecognized and renders as a regular file.
    let permission = permission.unwrap();
    assert_eq!(permission.get_file_type(), '-');
    assert_eq!(permission.render_symbolic(), "---x------");
}

#[test]
fn validators_accept_exactly_the_documented_shapes() {
    for triad in TRIADS {
        assert!(is_valid_triad(triad));
    }
    assert!(!is_valid_triad(""));
    assert!(!is_valid_triad("rrr"));
    assert!(!is_valid_triad("rw"));
    assert!(!is_valid_triad("rwxx"));
    assert!(!is_valid_triad("wr-"));
    assert!(!is_valid_triad("RWX"));

    for symbol in KIND_SYMBOLS {
        assert!(is_valid_file_type(symbol));
    }
    assert!(!is_valid_file_type('z'));
    assert!(!is_valid_file_type('x'));
    assert!(!is_valid_file_type('D'));
}

#[test]
fn triad_stores_any_character_verbatim() {
    let mut triad = ModeParser::from_perm("rw-");
    assert_eq!(triad.get_partial_mode(), 6);
    triad.set_read('z');
    assert_eq!(triad.get_read(), 'z');
    assert_eq!(triad.render(), "zw-");
    // The rendering is no canonical triad any more, so its digit falls
    // back to 0.
    assert_eq!(triad.get_partial_mode(), 0);
    triad.set_read('r');
    assert_eq!(triad.get_partial_mode(), 6);
}

#[test]
fn triad_from_short_string_pads_with_dashes() {
    let triad = ModeParser::from_perm("r");
    assert_eq!(triad.render(), "r--");
    assert_eq!(triad.get_partial_mode(), 4);

    let empty = ModeParser::from_perm("");
    assert_eq!(empty.render(), "---");
    assert_eq!(empty.get_partial_mode(), 0);
}

#[test]
fn owners_forward_to_their_triad() {
    let mut owner = OwnersKind::Group(ModeParser::from_perm("r-x"));
    assert_eq!(owner.get_read(), 'r');
    assert_eq!(owner.get_write(), '-');
    assert_eq!(owner.get_execute(), 'x');
    assert_eq!(owner.get_partial_mode(), 5);
    owner.set_write('w');
    assert_eq!(owner.render(), "rwx");
    assert_eq!(owner.get_partial_mode(), 7);
}

#[test]
fn mutating_each_owner_updates_the_mode() {
    let mut permission = FullPermission::new(33188).unwrap();
    permission.get_group().set_write('w');
    assert_eq!(permission.mode_as_octal(), "100664");
    permission.get_other().set_execute('x');
    assert_eq!(permission.mode_as_octal(), "100665");
    permission.get_user().set_execute('x');
    assert_eq!(permission.render_symbolic(), "-rwxrw-r-x");
}

#[test]
fn octal_rendering_samples() {
    assert_eq!(octal_string(33188, 6), "100644");
    assert_eq!(octal_string(0, 6), "000000");
    assert_eq!(octal_string(7, 6), "000007");
    assert_eq!(octal_string(3318869, 6), "14522125");
    assert_eq!(octal_string(8, 1), "10");
}

#[test]
fn octal_reading_samples() {
    assert_eq!(octal_digits_to_u32(&vec![1, 0, 0, 6, 4, 4]), 33188);
    assert_eq!(octal_digits_to_u32(&vec![]), 0);
    assert_eq!(octal_digits_to_u32(&vec![0, 0, 0, 0, 0, 1]), 1);
    // Twelve digits spell a value beyond u32, which collapses to 0.
    assert_eq!(octal_digits_to_u32(&vec![7; 12]), 0);
}
