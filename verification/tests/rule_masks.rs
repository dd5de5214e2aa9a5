use usiagent::rule::{
    SENTE_NARI_MASK, GOTE_NARI_MASK, DENY_MOVE_SENTE_FU_AND_KYOU_MASK, DENY_MOVE_GOTE_FU_AND_KYOU_MASK,
    DENY_MOVE_SENTE_KEI_MASK, DENY_MOVE_GOTE_KEI_MASK, TOP_MASK, BOTTOM_MASK, RIGHT_MASK,
};

#[test]
fn const_test_sente_nari_mask() {
    for i in 0..128 {
        let x = i / 9;
        let y = i - x * 9;

        if x < 9 && y <= 2 {
            assert!(SENTE_NARI_MASK & 1 << i != 0);
        } else {
            assert!(SENTE_NARI_MASK & 1 << i == 0);
        }
    }
}

#[test]
fn const_test_gote_nari_mask() {
    for i in 0..128 {
        let x = i / 9;
        let y = i - x * 9;

        if x < 9 && y >= 6 {
            assert!(GOTE_NARI_MASK & 1 << i != 0);
        } else {
            assert!(GOTE_NARI_MASK & 1 << i == 0);
        }
    }
}

#[test]
fn const_test_deny_move_sente_fu_and_kyou_mask() {
    for i in 0..128 {
        let x = i / 9;
        let y = i - x * 9;

        if x < 9 && y == 0 {
            assert!(DENY_MOVE_SENTE_FU_AND_KYOU_MASK & 1 << i != 0);
        } else {
            assert!(DENY_MOVE_SENTE_FU_AND_KYOU_MASK & 1 << i == 0);
        }
    }
}

#[test]
fn const_test_deny_move_gote_fu_and_kyou_mask() {
    for i in 0..128 {
        let x = i / 9;
        let y = i - x * 9;

        if x < 9 && y == 8 {
            assert!(DENY_MOVE_GOTE_FU_AND_KYOU_MASK & 1 << i != 0);
        } else {
            assert!(DENY_MOVE_GOTE_FU_AND_KYOU_MASK & 1 << i == 0);
        }
    }
}

#[test]
fn const_test_deny_move_deny_move_sente_kei_mask() {
    for i in 0..128 {
        let x = i / 9;
        let y = i - x * 9;

        if x < 9 && y <= 1 {
            assert!(DENY_MOVE_SENTE_KEI_MASK & 1 << i != 0);
        } else {
            assert!(DENY_MOVE_SENTE_KEI_MASK & 1 << i == 0);
        }
    }
}

#[test]
fn const_test_deny_move_deny_move_gote_kei_mask() {
    for i in 0..128 {
        let x = i / 9;
        let y = i - x * 9;

        if x < 9 && y >= 7 {
            assert!(DENY_MOVE_GOTE_KEI_MASK & 1 << i != 0);
        } else {
            assert!(DENY_MOVE_GOTE_KEI_MASK & 1 << i == 0);
        }
    }
}

#[test]
fn const_test_top_mask() {
    for i in 0..128 {
        let x = i / 9;
        let y = i - x * 9;

        if x < 3 && y >= 2 {
            assert!(TOP_MASK & 1 << i != 0);
        } else {
            assert!(TOP_MASK & 1 << i == 0);
        }
    }
}

#[test]
fn const_test_bottom_mask() {
    for i in 0..128 {
        let x = i / 9;
        let y = i - x * 9;

        if x < 3 && y <= 2 {
            assert!(BOTTOM_MASK & 1 << i != 0);
        } else {
            assert!(BOTTOM_MASK & 1 << i == 0);
        }
    }
}

#[test]
fn const_test_right_mask() {
    for i in 0..128 {
        let x = i / 9;

        if x <= 1 {
            assert!(RIGHT_MASK & 1 << i != 0);
        } else {
            assert!(RIGHT_MASK & 1 << i == 0);
        }
    }
}
