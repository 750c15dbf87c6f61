use pfs3::fuzz_ops::{dir_name_for, name_for, op_action, parse_ops, FuzzAction, Op};

#[test]
fn parse_ops_decodes_groups_of_four() {
    let data = [0u8, 17, 0x10, 0x10, 1, 9, 0, 0, 2, 3, 0, 0, 7, 5, 1, 0, 9];
    let ops = parse_ops(&data);
    assert_eq!(
        ops,
        vec![
            Op::WriteFile { name_idx: 1, size: 16 },
            Op::CreateDir { name_idx: 1 },
            Op::Delete { name_idx: 3 },
            Op::Overwrite { name_idx: 5, size: 1 },
        ]
    );
}

#[test]
fn parse_ops_ignores_short_input() {
    assert!(parse_ops(&[]).is_empty());
    assert!(parse_ops(&[0, 1, 2]).is_empty());
}

#[test]
fn parse_ops_sizes_stay_below_limit() {
    let ops = parse_ops(&[4, 255, 0xFF, 0xFF]);
    assert_eq!(ops, vec![Op::WriteFile { name_idx: 15, size: 4095 }]);
}

#[test]
fn fuzz_names() {
    assert_eq!(name_for(12), "f12");
    assert_eq!(name_for(0), "f0");
    assert_eq!(dir_name_for(7), "d7");
    assert_eq!(name_for(255), "f255");
}

#[test]
fn op_actions() {
    match op_action(&Op::WriteFile { name_idx: 1, size: 3 }) {
        FuzzAction::WriteFile { name, content } => {
            assert_eq!(name, "f1");
            assert_eq!(content, vec![1, 1, 1]);
        }
        _ => panic!("expected a write"),
    }
    match op_action(&Op::Overwrite { name_idx: 255, size: 2 }) {
        FuzzAction::WriteFile { name, content } => {
            assert_eq!(name, "f255");
            assert_eq!(content, vec![0, 0]);
        }
        _ => panic!("expected a write"),
    }
    match op_action(&Op::CreateDir { name_idx: 3 }) {
        FuzzAction::CreateDir { name } => assert_eq!(name, "d3"),
        _ => panic!("expected a mkdir"),
    }
    match op_action(&Op::Delete { name_idx: 4 }) {
        FuzzAction::Delete { name } => assert_eq!(name, "f4"),
        _ => panic!("expected a delete"),
    }
}
