//! The rules of the contract on plain values.

use rewards::common::{
    is_contract_address_text, is_valid_url_text, BUMP, ERR_INVALID_INPUT, ERR_NOT_FOUND,
    ERR_PAUSED, ERR_UNAUTHORIZED, MAX_QUEST_DESCRIPTION_LEN, MAX_QUEST_NAME_LEN,
    MAX_REWARD_AMOUNT, MIN_QUEST_DESCRIPTION_LEN, MIN_QUEST_NAME_LEN, THRESHOLD,
};
use rewards::rules::{
    add_funding, add_payout, add_refund, check_archiving, check_closing, check_expiry,
    check_reward, check_standing, choose_refund, claimable, is_payable, is_settable_grace_period, is_within_grace,
    refund_window, refundable, subtract_refund,
};
use rewards::{error_info, QuestStatus, RewardsErrorEnum, UserStatus, Visibility};

const ALL_ERRORS: [(RewardsErrorEnum, u32); 22] = [
    (RewardsErrorEnum::NotFound, 1),
    (RewardsErrorEnum::Unauthorized, 2),
    (RewardsErrorEnum::InvalidInput, 3),
    (RewardsErrorEnum::InsufficientPool, 4),
    (RewardsErrorEnum::InvalidAmount, 5),
    (RewardsErrorEnum::QuestNotFunded, 6),
    (RewardsErrorEnum::QuestLookupFailed, 7),
    (RewardsErrorEnum::MilestoneNotCompleted, 8),
    (RewardsErrorEnum::MilestoneContractNotInitialized, 9),
    (RewardsErrorEnum::ArithmeticOverflow, 10),
    (RewardsErrorEnum::AlreadyPaid, 11),
    (RewardsErrorEnum::InvalidToken, 12),
    (RewardsErrorEnum::RewardAmountMismatch, 13),
    (RewardsErrorEnum::QuestNotArchived, 14),
    (RewardsErrorEnum::RefundWindowNotOpen, 15),
    (RewardsErrorEnum::QuestNotExpired, 16),
    (RewardsErrorEnum::UserSuspended, 17),
    (RewardsErrorEnum::BatchTooLarge, 18),
    (RewardsErrorEnum::QuestContractNotInitialized, 21),
    (RewardsErrorEnum::AlreadyInitialized, 99),
    (RewardsErrorEnum::NotInitialized, 100),
    (RewardsErrorEnum::Paused, 400),
];

#[test]
fn errors_have_their_codes_and_their_order() {
    for (i, (error, code)) in ALL_ERRORS.iter().enumerate() {
        assert_eq!(error.code(), *code);
        for (other, other_code) in ALL_ERRORS[..i].iter() {
            assert_ne!(code, other_code);
            assert!(other < error);
        }
    }
}

#[test]
fn shared_codes_are_described() {
    assert_eq!(error_info(ERR_NOT_FOUND), "entity not found");
    assert_eq!(error_info(ERR_UNAUTHORIZED), "unauthorized");
    assert_eq!(error_info(ERR_INVALID_INPUT), "invalid input");
    assert_eq!(error_info(ERR_PAUSED), "contract is paused");
    assert_eq!(error_info(0), "unknown error");
    assert_eq!(error_info(4), "unknown error");
    assert_eq!(error_info(u32::MAX), "unknown error");
    assert_eq!(RewardsErrorEnum::NotFound.code(), ERR_NOT_FOUND);
    assert_eq!(RewardsErrorEnum::Unauthorized.code(), ERR_UNAUTHORIZED);
    assert_eq!(RewardsErrorEnum::InvalidInput.code(), ERR_INVALID_INPUT);
    assert_eq!(RewardsErrorEnum::Paused.code(), ERR_PAUSED);
}

#[test]
fn limits_have_their_values() {
    assert_eq!(BUMP, 518_400);
    assert_eq!(THRESHOLD, 120_960);
    assert_eq!(MAX_REWARD_AMOUNT, 1_000_000_000_000_000);
    assert_eq!((MIN_QUEST_NAME_LEN, MAX_QUEST_NAME_LEN), (1, 64));
    assert_eq!((MIN_QUEST_DESCRIPTION_LEN, MAX_QUEST_DESCRIPTION_LEN), (1, 2000));
}

#[test]
fn codes_stand_for_variants() {
    assert_eq!(Visibility::from_code(0), Some(Visibility::Public));
    assert_eq!(Visibility::from_code(1), Some(Visibility::Private));
    assert_eq!(Visibility::from_code(2), None);
    assert_eq!(QuestStatus::from_code(0), Some(QuestStatus::Active));
    assert_eq!(QuestStatus::from_code(1), Some(QuestStatus::Archived));
    assert_eq!(QuestStatus::from_code(2), Some(QuestStatus::Cancelled));
    assert_eq!(QuestStatus::from_code(3), None);
    assert_eq!(UserStatus::from_code(0), Some(UserStatus::Active));
    assert_eq!(UserStatus::from_code(1), Some(UserStatus::Suspended));
    assert_eq!(UserStatus::from_code(2), Some(UserStatus::Inactive));
    assert_eq!(UserStatus::from_code(3), None);
}

#[test]
fn payable_amounts_have_bounds() {
    assert!(!is_payable(i128::MIN));
    assert!(!is_payable(0));
    assert!(is_payable(1));
    assert!(is_payable(1_000_000_000_000_000));
    assert!(!is_payable(1_000_000_000_000_001));
}

#[test]
fn settable_grace_periods_have_bounds() {
    assert!(!is_settable_grace_period(86_399));
    assert!(is_settable_grace_period(86_400));
    assert!(is_settable_grace_period(31_536_000));
    assert!(!is_settable_grace_period(31_536_001));
}

#[test]
fn funding_sums() {
    assert_eq!(add_funding(10, 20, 3, true, 5), Ok((15, 25, 4)));
    assert_eq!(add_funding(10, 20, 3, false, 5), Ok((15, 25, 3)));
    assert_eq!(add_funding(0, 0, u32::MAX, false, 5), Ok((5, 5, u32::MAX)));
    let overflow = Err(RewardsErrorEnum::ArithmeticOverflow);
    assert_eq!(add_funding(0, 0, u32::MAX, true, 5), overflow);
    assert_eq!(add_funding(i128::MAX, 0, 0, false, 1), overflow);
    assert_eq!(add_funding(0, i128::MAX, 0, false, 1), overflow);
}

#[test]
fn payout_sums() {
    assert_eq!(add_payout(1, 2, 3, 10), Ok((11, 12, 13)));
    let overflow = Err(RewardsErrorEnum::ArithmeticOverflow);
    assert_eq!(add_payout(i128::MAX, 2, 3, 1), overflow);
    assert_eq!(add_payout(1, i128::MAX, 3, 1), overflow);
    assert_eq!(add_payout(1, 2, i128::MAX, 1), overflow);
}

#[test]
fn rewards_agree_with_what_was_promised() {
    assert_eq!(check_reward(Some(5), 5), Ok(()));
    assert_eq!(check_reward(Some(5), 6), Err(RewardsErrorEnum::RewardAmountMismatch));
    assert_eq!(check_reward(Some(0), 6), Ok(()));
    assert_eq!(check_reward(Some(-1), 6), Ok(()));
    assert_eq!(check_reward(None, 6), Ok(()));
}

#[test]
fn claims_take_what_was_promised() {
    assert_eq!(claimable(Some(5)), Ok(5));
    assert_eq!(claimable(Some(0)), Err(RewardsErrorEnum::InvalidAmount));
    assert_eq!(claimable(Some(MAX_REWARD_AMOUNT)), Ok(MAX_REWARD_AMOUNT));
    assert_eq!(claimable(Some(MAX_REWARD_AMOUNT + 1)), Err(RewardsErrorEnum::InvalidAmount));
    assert_eq!(claimable(None), Err(RewardsErrorEnum::NotFound));
}

#[test]
fn standings_decide() {
    assert_eq!(check_standing(0), Ok(()));
    assert_eq!(check_standing(1), Err(RewardsErrorEnum::UserSuspended));
    assert_eq!(check_standing(2), Ok(()));
    assert_eq!(check_standing(3), Err(RewardsErrorEnum::QuestLookupFailed));
}

#[test]
fn refunds_leave_the_obligations() {
    assert_eq!(refundable(900, 350, 100), Ok(650));
    assert_eq!(refundable(100, 350, 100), Ok(-150));
    assert_eq!(refundable(50, 0, 100), Ok(50));
    assert_eq!(refundable(50, 100, 100), Ok(50));
    assert_eq!(refundable(i128::MAX, 0, 1), Ok(i128::MAX));
    let overflow = Err(RewardsErrorEnum::ArithmeticOverflow);
    assert_eq!(refundable(0, i128::MIN, 1), overflow);
    assert_eq!(refundable(i128::MIN, 1, 0), overflow);
}

#[test]
fn refunds_are_chosen() {
    assert_eq!(choose_refund(10, Some(10)), Ok(10));
    assert_eq!(choose_refund(10, Some(11)), Err(RewardsErrorEnum::InsufficientPool));
    assert_eq!(choose_refund(10, None), Ok(10));
    assert_eq!(choose_refund(0, None), Ok(0));
    assert_eq!(choose_refund(-10, None), Ok(0));
}

#[test]
fn refund_sums() {
    assert_eq!(add_refund(10, 20, 3, 4), Ok((6, 16, 7)));
    assert_eq!(add_refund(10, 3, 3, 4), Ok((6, 0, 7)));
    let overflow = Err(RewardsErrorEnum::ArithmeticOverflow);
    assert_eq!(add_refund(10, 20, i128::MAX, 4), overflow);
    assert_eq!(add_refund(i128::MIN, 20, 3, 4), overflow);
}

#[test]
fn the_total_is_cut_off_at_zero() {
    assert_eq!(subtract_refund(10, 4), 6);
    assert_eq!(subtract_refund(4, 4), 0);
    assert_eq!(subtract_refund(3, 4), 0);
    assert_eq!(subtract_refund(i128::MIN, 4), 0);
}

#[test]
fn the_grace_period_runs() {
    assert!(is_within_grace(10, 5, 14));
    assert!(!is_within_grace(10, 5, 15));
    assert!(is_within_grace(u64::MAX, 1, u64::MAX));
}

#[test]
fn closed_quests_open_for_refunds() {
    let early = Err(RewardsErrorEnum::RefundWindowNotOpen);
    assert_eq!(check_closing(QuestStatus::Archived, 10, 5, 14), early);
    assert_eq!(check_closing(QuestStatus::Archived, 10, 5, 15), Ok(()));
    assert_eq!(check_closing(QuestStatus::Cancelled, 10, 5, 0), Ok(()));
    assert_eq!(
        check_closing(QuestStatus::Active, 10, 5, 15),
        Err(RewardsErrorEnum::QuestNotArchived)
    );
}

#[test]
fn archived_quests_open_for_all_refunds() {
    let early = Err(RewardsErrorEnum::RefundWindowNotOpen);
    let other = Err(RewardsErrorEnum::QuestNotArchived);
    assert_eq!(check_archiving(QuestStatus::Archived, 10, 5, 14), early);
    assert_eq!(check_archiving(QuestStatus::Archived, 10, 5, 15), Ok(()));
    assert_eq!(check_archiving(QuestStatus::Cancelled, 10, 5, 15), other);
    assert_eq!(check_archiving(QuestStatus::Active, 10, 5, 15), other);
}

#[test]
fn expired_quests_open_for_refunds() {
    let alive = Err(RewardsErrorEnum::QuestNotExpired);
    assert_eq!(check_expiry(0, 5, 100), alive);
    assert_eq!(check_expiry(10, 5, 10), alive);
    assert_eq!(check_expiry(10, 5, 11), Err(RewardsErrorEnum::RefundWindowNotOpen));
    assert_eq!(check_expiry(10, 5, 15), Ok(()));
}

#[test]
fn an_open_quest_stays_open() {
    for now in 0..40 {
        if check_closing(QuestStatus::Archived, 10, 5, now).is_ok() {
            assert!(check_closing(QuestStatus::Archived, 10, 5, now + 1).is_ok());
        }
        if check_expiry(10, 5, now).is_ok() {
            assert!(check_expiry(10, 5, now + 1).is_ok());
        }
    }
}

#[test]
fn windows_agree_with_archiving() {
    for status in [QuestStatus::Active, QuestStatus::Archived, QuestStatus::Cancelled] {
        let window = refund_window(status, 10, 5);
        for now in 0..30 {
            let open = window != (0, 0) && window.0 <= now && now <= window.1;
            assert_eq!(check_archiving(status, 10, 5, now).is_ok(), open);
        }
    }
    assert_eq!(refund_window(QuestStatus::Active, 10, 5), (0, 0));
    assert_eq!(refund_window(QuestStatus::Archived, 10, 5), (15, u64::MAX));
    assert_eq!(refund_window(QuestStatus::Cancelled, 10, 5), (0, 0));
    assert_eq!(refund_window(QuestStatus::Archived, u64::MAX, 5), (u64::MAX, u64::MAX));
}

#[test]
fn contract_addresses_have_a_form() {
    let mut text: Vec<u8> = vec![b'A'; 56];
    assert!(!is_contract_address_text(&text));
    text[0] = b'C';
    assert!(is_contract_address_text(&text));
    text[55] = b'7';
    assert!(is_contract_address_text(&text));
    for bad in [b'1', b'8', b'a', b'[', b'@'] {
        text[55] = bad;
        assert!(!is_contract_address_text(&text));
    }
    text.pop();
    assert!(!is_contract_address_text(&text));
    text[0] = b'G';
    text.push(b'A');
    assert!(!is_contract_address_text(&text));
}

#[test]
fn urls_have_a_form() {
    let url = |text: &str| is_valid_url_text(&text.as_bytes().to_vec());
    assert!(url("http://x"));
    assert!(url("https://x"));
    assert!(!url("https:/"));
    assert!(!url("http//x"));
    assert!(!url(" http://x"));
    assert!(!url("http://x\ty"));
    for white in [9u8, 10, 11, 12, 13, 32] {
        let text: Vec<u8> = vec![b'h', b't', b't', b'p', b':', b'/', b'/', b'a', white];
        assert!(!is_valid_url_text(&text));
    }
    for dark in [8u8, 14, 31, 33] {
        let text: Vec<u8> = vec![b'h', b't', b't', b'p', b':', b'/', b'/', b'a', dark];
        assert!(is_valid_url_text(&text));
    }
}
