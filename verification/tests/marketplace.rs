use soroban_sdk::Env;
use zenith::error::Error;
use zenith::marketplace::{
    InvoiceStatus, MarketEvent, MarketplaceContract, MarketplaceSettings, MarketplaceStats, PaymentMethod,
    PaymentRecord,
};
use zenith::principal::Principal;

const NOW: u64 = 0;

fn create_marketplace_contract(env: &Env, admin: Principal) -> (MarketplaceContract, Principal, Principal) {
    let invoice_nft_contract = Principal::contract(1001);
    let liquidity_pool_contract = Principal::contract(1002);
    let market =
        MarketplaceContract::initialize(env, admin, invoice_nft_contract, liquidity_pool_contract, true)
            .unwrap();
    (market, invoice_nft_contract, liquidity_pool_contract)
}

#[test]
fn test_initialize() {
    let env = Env::default();
    let admin = Principal::account(1);
    let (market, _invoice_nft_contract, _liquidity_pool_contract) =
        create_marketplace_contract(&env, admin);

    let settings = market.get_settings();

    assert_eq!(settings.admin, admin);
    assert_eq!(settings.platform_fee, 50);
    assert_eq!(settings.max_funding_ratio, 95);
    assert_eq!(settings.min_invoice_amount, 100_0000000i128);
    assert_eq!(settings.max_invoice_amount, 100000_0000000i128);
    assert_eq!(settings.auto_approval_threshold, 1000_0000000i128);
    assert_eq!(settings.early_payment_bonus, 300);
}

#[test]
fn test_submit_invoice_auto_approval() {
    let env = Env::default();
    let admin = Principal::account(1);
    let creator = Principal::account(2);
    let (mut market, _, _) = create_marketplace_contract(&env, admin);

    let invoice_id = 1u64;
    let amount = 500_0000000i128;
    let due_date = NOW + 86400 * 30;

    let status = market.submit_invoice(creator, invoice_id, amount, due_date, NOW, true).unwrap();
    assert_eq!(status, InvoiceStatus::Funded);

    let approval = market.get_invoice_approval(invoice_id).unwrap();
    assert_eq!(approval.status, InvoiceStatus::Funded);
    assert_eq!(approval.approved_amount, Some(amount));
    assert!(approval.approval_date.is_some());
    assert!(approval.funding_date.is_some());
    assert!(approval.funded_amount.is_some());
}

#[test]
fn test_submit_invoice_manual_approval() {
    let env = Env::default();
    let admin = Principal::account(1);
    let creator = Principal::account(2);
    let (mut market, _, _) = create_marketplace_contract(&env, admin);

    let invoice_id = 1u64;
    let amount = 5000_0000000i128;
    let due_date = NOW + 86400 * 30;

    let status = market.submit_invoice(creator, invoice_id, amount, due_date, NOW, true).unwrap();
    assert_eq!(status, InvoiceStatus::Pending);

    let pending_invoices = market.get_pending_invoices(admin, true).unwrap();
    assert_eq!(pending_invoices.len(), 1);
    assert_eq!(pending_invoices.get(0).unwrap(), invoice_id);

    let approval = market.get_invoice_approval(invoice_id).unwrap();
    assert_eq!(approval.status, InvoiceStatus::Pending);
    assert_eq!(approval.approved_amount, None);
}

#[test]
fn test_approve_invoice() {
    let env = Env::default();
    let admin = Principal::account(1);
    let creator = Principal::account(2);
    let (mut market, _, _) = create_marketplace_contract(&env, admin);

    let invoice_id = 1u64;
    let amount = 5000_0000000i128;
    let due_date = NOW + 86400 * 30;

    market.submit_invoice(creator, invoice_id, amount, due_date, NOW, true).unwrap();

    let approved_amount = 4500_0000000i128;
    let risk_score = "B".to_string();
    let result = market
        .approve_invoice(admin, invoice_id, approved_amount, risk_score.clone(), NOW, true)
        .unwrap();
    assert!(result);

    let approval = market.get_invoice_approval(invoice_id).unwrap();
    assert_eq!(approval.status, InvoiceStatus::Funded);
    assert_eq!(approval.approved_amount, Some(approved_amount));
    assert_eq!(approval.risk_score, risk_score);
    assert!(approval.approval_date.is_some());
    assert!(approval.funding_date.is_some());

    let funded_invoices = market.get_funded_invoices();
    assert_eq!(funded_invoices.len(), 1);
    assert_eq!(funded_invoices.get(0).unwrap(), invoice_id);
}

#[test]
fn test_reject_invoice() {
    let env = Env::default();
    let admin = Principal::account(1);
    let creator = Principal::account(2);
    let (mut market, _, _) = create_marketplace_contract(&env, admin);

    let invoice_id = 1u64;
    let amount = 5000_0000000i128;
    let due_date = NOW + 86400 * 30;

    market.submit_invoice(creator, invoice_id, amount, due_date, NOW, true).unwrap();

    let reason = "Insufficient documentation".to_string();
    let result = market.reject_invoice(admin, invoice_id, reason, true).unwrap();
    assert!(result);

    let approval = market.get_invoice_approval(invoice_id).unwrap();
    assert_eq!(approval.status, InvoiceStatus::Rejected);

    let pending_invoices = market.get_pending_invoices(admin, true).unwrap();
    assert_eq!(pending_invoices.len(), 0);
}

#[test]
fn test_process_payment_early() {
    let env = Env::default();
    let admin = Principal::account(1);
    let creator = Principal::account(2);
    let payer = Principal::account(3);
    let (mut market, _, _) = create_marketplace_contract(&env, admin);

    let invoice_id = 1u64;
    let amount = 500_0000000i128;
    let due_date = NOW + 86400 * 30;

    market.submit_invoice(creator, invoice_id, amount, due_date, NOW, true).unwrap();

    let payment_amount = amount;
    let payment_record = market
        .process_payment(payer, invoice_id, payment_amount, PaymentMethod::Crypto, NOW, true)
        .unwrap();

    assert_eq!(payment_record.invoice_id, invoice_id);
    assert_eq!(payment_record.payer, payer);
    assert_eq!(payment_record.amount, payment_amount);
    assert_eq!(payment_record.payment_method, PaymentMethod::Crypto);
    assert_eq!(payment_record.is_early_payment, true);
    assert!(payment_record.cashback_amount > 0);
    assert!(payment_record.platform_fee > 0);

    let approval = market.get_invoice_approval(invoice_id).unwrap();
    assert_eq!(approval.status, InvoiceStatus::Completed);
    assert!(approval.completion_date.is_some());

    let completed_invoices = market.get_completed_invoices();
    assert_eq!(completed_invoices.len(), 1);
    assert_eq!(completed_invoices.get(0).unwrap(), invoice_id);
}

#[test]
fn test_process_payment_fiat() {
    let env = Env::default();
    let admin = Principal::account(1);
    let creator = Principal::account(2);
    let payer = Principal::account(3);
    let (mut market, _, _) = create_marketplace_contract(&env, admin);

    let invoice_id = 1u64;
    let amount = 500_0000000i128;
    let due_date = NOW + 86400 * 30;

    market.submit_invoice(creator, invoice_id, amount, due_date, NOW, true).unwrap();

    let approval = market.get_invoice_approval(invoice_id).unwrap();
    assert_eq!(approval.status, InvoiceStatus::Funded);

    let payment_amount = amount;
    let payment_record = market
        .process_payment(payer, invoice_id, payment_amount, PaymentMethod::Fiat, NOW, true)
        .unwrap();

    assert_eq!(payment_record.invoice_id, invoice_id);
    assert_eq!(payment_record.payer, payer);
    assert_eq!(payment_record.amount, payment_amount);
    assert_eq!(payment_record.payment_method, PaymentMethod::Fiat);
}

#[test]
fn test_request_funding() {
    let env = Env::default();
    let admin = Principal::account(1);
    let creator = Principal::account(2);
    let (mut market, _, _) = create_marketplace_contract(&env, admin);

    let invoice_id = 1u64;
    let amount = 5000_0000000i128;
    let due_date = NOW + 86400 * 30;

    market.submit_invoice(creator, invoice_id, amount, due_date, NOW, true).unwrap();

    market.approve_invoice(admin, invoice_id, amount, "A".to_string(), NOW, true).unwrap();

    let approval = market.get_invoice_approval(invoice_id).unwrap();
    assert_eq!(approval.status, InvoiceStatus::Funded);

    assert!(approval.funded_amount.is_some());
}

#[test]
fn test_test_update_settings() {
    let env = Env::default();
    let admin = Principal::account(1);
    let (mut market, _, _) = create_marketplace_contract(&env, admin);

    market.update_settings(admin, Some(100u32), Some(90u32), Some(500u32), None, true).unwrap();

    let settings = market.get_settings();
    assert_eq!(settings.platform_fee, 100);
    assert_eq!(settings.max_funding_ratio, 90);
    assert_eq!(settings.early_payment_bonus, 500);
}

#[test]
fn test_marketplace_stats() {
    let env = Env::default();
    let admin = Principal::account(1);
    let creator = Principal::account(2);
    let payer = Principal::account(3);
    let (mut market, _, _) = create_marketplace_contract(&env, admin);

    let invoice_id = 1u64;
    let amount = 500_0000000i128;
    let due_date = NOW + 86400 * 30;

    market.submit_invoice(creator, invoice_id, amount, due_date, NOW, true).unwrap();
    market.process_payment(payer, invoice_id, amount, PaymentMethod::Crypto, NOW, true).unwrap();

    let stats = market.get_marketplace_stats();
    assert_eq!(stats.total_invoices_processed, 1);
    assert_eq!(stats.total_volume_processed, amount);
    assert!(stats.total_fees_collected > 0);
}

#[test]
fn test_discount_rate_calculation() {
    let env = Env::default();
    let admin = Principal::account(1);
    let creator = Principal::account(2);
    let (mut market, _, _) = create_marketplace_contract(&env, admin);

    let invoice_id_1 = 1u64;
    let amount = 500_0000000i128;
    let due_date_short = NOW + 86400 * 30;

    market.submit_invoice(creator, invoice_id_1, amount, due_date_short, NOW, true).unwrap();
    let short_rate = market.get_invoice_approval(invoice_id_1).unwrap().discount_rate;

    let invoice_id_2 = 2u64;
    let due_date_long = NOW + 86400 * 180;

    market.submit_invoice(creator, invoice_id_2, amount, due_date_long, NOW, true).unwrap();
    let long_rate = market.get_invoice_approval(invoice_id_2).unwrap().discount_rate;

    assert!(short_rate > long_rate);
}

#[test]
fn test_submit_invoice_invalid_amount_too_low() {
    let env = Env::default();
    let admin = Principal::account(1);
    let creator = Principal::account(2);
    let (mut market, _, _) = create_marketplace_contract(&env, admin);

    let result = market.submit_invoice(creator, 1u64, 50_0000000i128, NOW + 86400 * 30, NOW, true);
    assert_eq!(result, Err(Error::OutOfRange));
    assert!(market.get_invoice_approval(1).is_none());
}

#[test]
fn test_submit_invoice_invalid_amount_too_high() {
    let env = Env::default();
    let admin = Principal::account(1);
    let creator = Principal::account(2);
    let (mut market, _, _) = create_marketplace_contract(&env, admin);

    let result = market.submit_invoice(creator, 1u64, 200000_0000000i128, NOW + 86400 * 30, NOW, true);
    assert_eq!(result, Err(Error::OutOfRange));
    assert!(market.get_invoice_approval(1).is_none());
}

#[test]
fn test_submit_invoice_invalid_due_date() {
    let env = Env::default();
    let admin = Principal::account(1);
    let creator = Principal::account(2);
    let (mut market, _, _) = create_marketplace_contract(&env, admin);

    let result = market.submit_invoice(creator, 1u64, 500_0000000i128, NOW, NOW, true);
    assert_eq!(result, Err(Error::InvalidDueDate));
}

#[test]
fn test_submit_invoice_due_date_too_soon() {
    let env = Env::default();
    let admin = Principal::account(1);
    let creator = Principal::account(2);
    let (mut market, _, _) = create_marketplace_contract(&env, admin);

    let result = market.submit_invoice(creator, 1u64, 500_0000000i128, NOW + 86400 * 5, NOW, true);
    assert_eq!(result, Err(Error::OutOfRange));
}

#[test]
fn test_approve_invoice_unauthorized() {
    let env = Env::default();
    let admin = Principal::account(1);
    let creator = Principal::account(2);
    let unauthorized_user = Principal::account(4);
    let (mut market, _, _) = create_marketplace_contract(&env, admin);

    let invoice_id = 1u64;
    let amount = 5000_0000000i128;
    market.submit_invoice(creator, invoice_id, amount, NOW + 86400 * 30, NOW, true).unwrap();

    let result = market.approve_invoice(unauthorized_user, invoice_id, amount, "B".to_string(), NOW, true);
    assert_eq!(result, Err(Error::Unauthorized));
    assert_eq!(market.get_invoice_approval(invoice_id).unwrap().status, InvoiceStatus::Pending);
}

#[test]
fn test_process_payment_wrong_status() {
    let env = Env::default();
    let admin = Principal::account(1);
    let creator = Principal::account(2);
    let payer = Principal::account(3);
    let (mut market, _, _) = create_marketplace_contract(&env, admin);

    let invoice_id = 1u64;
    let amount = 5000_0000000i128;
    market.submit_invoice(creator, invoice_id, amount, NOW + 86400 * 30, NOW, true).unwrap();

    let result = market.process_payment(payer, invoice_id, amount, PaymentMethod::Crypto, NOW, true);
    assert_eq!(result, Err(Error::InvalidState));
    assert_eq!(market.get_payment_record(invoice_id), None);
}

#[test]
fn test_update_settings_invalid_fee() {
    let env = Env::default();
    let admin = Principal::account(1);
    let (mut market, _, _) = create_marketplace_contract(&env, admin);

    let result = market.update_settings(admin, Some(1500u32), None, None, None, true);
    assert_eq!(result, Err(Error::OutOfRange));
    assert_eq!(market.get_settings().platform_fee, 50);
}

#[test]
fn marketplace_discount_tiers() {
    assert_eq!(MarketplaceContract::calculate_discount_rate(0), 700);
    assert_eq!(MarketplaceContract::calculate_discount_rate(30), 700);
    assert_eq!(MarketplaceContract::calculate_discount_rate(31), 600);
    assert_eq!(MarketplaceContract::calculate_discount_rate(90), 600);
    assert_eq!(MarketplaceContract::calculate_discount_rate(91), 500);
    assert_eq!(MarketplaceContract::calculate_discount_rate(u64::MAX), 500);
}

#[test]
fn initialize_sets_defaults_and_empty_lists() {
    let env = Env::default();
    let admin = Principal::account(1);
    let (market, registry, pool) = create_marketplace_contract(&env, admin);
    assert_eq!(
        market.get_settings(),
        MarketplaceSettings {
            admin,
            platform_fee: 50,
            max_funding_ratio: 95,
            min_invoice_amount: 100_0000000i128,
            max_invoice_amount: 100000_0000000i128,
            auto_approval_threshold: 1000_0000000i128,
            early_payment_bonus: 300,
            min_days_until_due: 7,
            max_days_until_due: 365,
        }
    );
    assert_eq!(
        market.get_marketplace_stats(),
        MarketplaceStats {
            total_invoices_processed: 0,
            total_volume_processed: 0,
            total_fees_collected: 0,
            active_invoices: 0,
            success_rate: 0,
            average_funding_time: 0,
            total_liquidity_provided: 0,
        }
    );
    assert_eq!(market.invoice_nft_contract, registry);
    assert_eq!(market.liquidity_pool_contract, pool);
    assert!(market.get_pending_invoices(admin, true).unwrap().is_empty());
    assert!(market.get_approved_invoices().is_empty());
    assert!(market.get_funded_invoices().is_empty());
    assert!(market.get_completed_invoices().is_empty());
    assert_eq!(
        market.events,
        vec![MarketEvent::Initialized {
            admin,
            invoice_nft_contract: registry,
            liquidity_pool_contract: pool,
        }]
    );
    assert!(matches!(
        MarketplaceContract::initialize(&env, admin, registry, pool, false),
        Err(Error::Unauthorized)
    ));
}

#[test]
fn automatic_approval_funds_the_configured_share() {
    let env = Env::default();
    let admin = Principal::account(1);
    let creator = Principal::account(2);
    let (mut market, _, _) = create_marketplace_contract(&env, admin);
    market.take_events();

    // Exactly at the threshold the invoice is still approved automatically.
    let amount = 1000_0000000i128;
    let now = 1000u64;
    let due_date = now + 86400 * 30;
    let status = market.submit_invoice(creator, 42, amount, due_date, now, true).unwrap();
    assert_eq!(status, InvoiceStatus::Funded);

    let approval = market.get_invoice_approval(42).unwrap();
    assert_eq!(approval.invoice_id, 42);
    assert_eq!(approval.creator, creator);
    assert_eq!(approval.amount, amount);
    assert_eq!(approval.due_date, due_date);
    assert_eq!(approval.approved_amount, Some(amount));
    assert_eq!(approval.approval_date, Some(now));
    assert_eq!(approval.funding_date, Some(now));
    assert_eq!(approval.completion_date, None);
    assert_eq!(approval.funded_amount, Some(950_0000000i128));
    assert_eq!(approval.discount_rate, 700);
    assert_eq!(approval.risk_score, "C");

    assert!(market.get_pending_invoices(admin, true).unwrap().is_empty());
    assert!(market.get_approved_invoices().is_empty());
    assert_eq!(market.get_funded_invoices().to_vec(), vec![42]);
    assert!(market.get_completed_invoices().is_empty());

    // expected return = 950 + 950 * 700 * 30 / 3650000 (scaled) = 955.4657534
    assert_eq!(
        market.take_events(),
        vec![
            MarketEvent::Funded {
                invoice_id: 42,
                funding_amount: 950_0000000i128,
                expected_return: 950_0000000i128 + 950_0000000i128 * 700 * 30 / 3650000,
            },
            MarketEvent::Submitted {
                invoice_id: 42,
                creator,
                amount,
                status: InvoiceStatus::Funded,
            },
        ]
    );
}

#[test]
fn an_amount_above_the_threshold_waits_for_a_decision() {
    let env = Env::default();
    let admin = Principal::account(1);
    let creator = Principal::account(2);
    let (mut market, _, _) = create_marketplace_contract(&env, admin);
    market.take_events();

    let amount = 1000_0000001i128;
    let status = market.submit_invoice(creator, 7, amount, 86400 * 91, 0, true).unwrap();
    assert_eq!(status, InvoiceStatus::Pending);
    let approval = market.get_invoice_approval(7).unwrap();
    assert_eq!(approval.discount_rate, 500);
    assert_eq!(approval.approved_amount, None);
    assert_eq!(approval.approval_date, None);
    assert_eq!(approval.funding_date, None);
    assert_eq!(approval.funded_amount, None);
    assert_eq!(market.get_pending_invoices(admin, true).unwrap().to_vec(), vec![7]);
    assert!(market.get_funded_invoices().is_empty());
    assert_eq!(
        market.take_events(),
        vec![MarketEvent::Submitted { invoice_id: 7, creator, amount, status: InvoiceStatus::Pending }]
    );
}

#[test]
fn submission_bounds_are_inclusive() {
    let env = Env::default();
    let admin = Principal::account(1);
    let creator = Principal::account(2);
    let (mut market, _, _) = create_marketplace_contract(&env, admin);

    assert!(market.submit_invoice(creator, 1, 100_0000000i128, 7 * 86400, 0, true).is_ok());
    assert!(market.submit_invoice(creator, 2, 100000_0000000i128, 365 * 86400 + 86399, 0, true).is_ok());
    assert_eq!(
        market.submit_invoice(creator, 3, 100_0000000i128 - 1, 7 * 86400, 0, true),
        Err(Error::OutOfRange)
    );
    assert_eq!(
        market.submit_invoice(creator, 3, 100000_0000000i128 + 1, 7 * 86400, 0, true),
        Err(Error::OutOfRange)
    );
    assert_eq!(
        market.submit_invoice(creator, 3, 100_0000000i128, 7 * 86400 - 1, 0, true),
        Err(Error::OutOfRange)
    );
    assert_eq!(
        market.submit_invoice(creator, 3, 100_0000000i128, 366 * 86400, 0, true),
        Err(Error::OutOfRange)
    );
    assert_eq!(
        market.submit_invoice(creator, 3, 100_0000000i128, 50, 50, true),
        Err(Error::InvalidDueDate)
    );
    // The amount is tested before the due date.
    assert_eq!(market.submit_invoice(creator, 3, 1, 50, 50, true), Err(Error::OutOfRange));
    assert_eq!(
        market.submit_invoice(creator, 3, 100_0000000i128, 7 * 86400, 0, false),
        Err(Error::Unauthorized)
    );
    assert!(market.get_invoice_approval(3).is_none());
}

#[test]
fn approving_twice_is_refused() {
    let env = Env::default();
    let admin = Principal::account(1);
    let creator = Principal::account(2);
    let (mut market, _, _) = create_marketplace_contract(&env, admin);
    market.submit_invoice(creator, 1, 5000_0000000i128, 86400 * 30, 0, true).unwrap();

    assert_eq!(
        market.approve_invoice(admin, 1, 5000_0000001i128, "A".to_string(), 0, true),
        Err(Error::OutOfRange)
    );
    assert_eq!(
        market.approve_invoice(admin, 2, 1, "A".to_string(), 0, true),
        Err(Error::NotFound)
    );
    assert_eq!(
        market.approve_invoice(admin, 1, 1, "A".to_string(), 0, false),
        Err(Error::Unauthorized)
    );
    assert!(market.approve_invoice(admin, 1, 4500_0000000i128, "A".to_string(), 10, true).unwrap());
    assert_eq!(
        market.approve_invoice(admin, 1, 4500_0000000i128, "A".to_string(), 11, true),
        Err(Error::InvalidState)
    );
    assert_eq!(
        market.reject_invoice(admin, 1, "late".to_string(), true),
        Err(Error::InvalidState)
    );

    let approval = market.get_invoice_approval(1).unwrap();
    assert_eq!(approval.funded_amount, Some(4275_0000000i128));
    assert_eq!(approval.approval_date, Some(10));
    assert_eq!(approval.funding_date, Some(10));
    assert!(market.get_pending_invoices(admin, true).unwrap().is_empty());
    assert!(market.get_approved_invoices().is_empty());
    assert_eq!(market.get_funded_invoices().to_vec(), vec![1]);
}

#[test]
fn approval_reports_funding_then_approval() {
    let env = Env::default();
    let admin = Principal::account(1);
    let creator = Principal::account(2);
    let (mut market, _, _) = create_marketplace_contract(&env, admin);
    market.submit_invoice(creator, 1, 5000_0000000i128, 86400 * 60, 0, true).unwrap();
    market.take_events();
    market.approve_invoice(admin, 1, 4000_0000000i128, "B".to_string(), 86400 * 10, true).unwrap();
    // 50 days are left; the record's rate is the one of the 60 days at submission.
    assert_eq!(
        market.take_events(),
        vec![
            MarketEvent::Funded {
                invoice_id: 1,
                funding_amount: 3800_0000000i128,
                expected_return: 3800_0000000i128 + 3800_0000000i128 * 600 * 50 / 3650000,
            },
            MarketEvent::Approved { invoice_id: 1, approved_amount: 4000_0000000i128 },
        ]
    );
}

#[test]
fn rejection_is_terminal_and_unlisted() {
    let env = Env::default();
    let admin = Principal::account(1);
    let creator = Principal::account(2);
    let (mut market, _, _) = create_marketplace_contract(&env, admin);
    market.submit_invoice(creator, 1, 5000_0000000i128, 86400 * 30, 0, true).unwrap();
    market.submit_invoice(creator, 2, 6000_0000000i128, 86400 * 30, 0, true).unwrap();
    market.take_events();

    assert_eq!(
        market.reject_invoice(creator, 1, "no".to_string(), true),
        Err(Error::Unauthorized)
    );
    assert_eq!(market.reject_invoice(admin, 9, "no".to_string(), true), Err(Error::NotFound));
    assert!(market.reject_invoice(admin, 1, "no".to_string(), true).unwrap());

    assert_eq!(market.get_pending_invoices(admin, true).unwrap().to_vec(), vec![2]);
    assert!(market.get_approved_invoices().is_empty());
    assert!(market.get_funded_invoices().is_empty());
    assert!(market.get_completed_invoices().is_empty());
    assert_eq!(market.take_events(), vec![MarketEvent::Rejected { invoice_id: 1, reason: "no".to_string() }]);
    assert_eq!(
        market.approve_invoice(admin, 1, 1, "A".to_string(), 0, true),
        Err(Error::InvalidState)
    );
    assert_eq!(
        market.process_payment(creator, 1, 1, PaymentMethod::Mixed, 0, true),
        Err(Error::InvalidState)
    );
}

#[test]
fn cashback_is_paid_only_before_the_due_date() {
    let env = Env::default();
    let admin = Principal::account(1);
    let creator = Principal::account(2);
    let payer = Principal::account(3);
    let (mut market, _, _) = create_marketplace_contract(&env, admin);
    let due_date = 86400 * 30;
    market.submit_invoice(creator, 1, 500_0000000i128, due_date, 0, true).unwrap();
    market.submit_invoice(creator, 2, 500_0000000i128, due_date, 0, true).unwrap();
    market.submit_invoice(creator, 3, 500_0000000i128, due_date, 0, true).unwrap();

    let early = market
        .process_payment(payer, 1, 500_0000000i128, PaymentMethod::Crypto, due_date - 1, true)
        .unwrap();
    assert_eq!(
        early,
        PaymentRecord {
            invoice_id: 1,
            payer,
            amount: 500_0000000i128,
            payment_method: PaymentMethod::Crypto,
            payment_date: due_date - 1,
            is_early_payment: true,
            cashback_amount: 15_0000000i128,
            platform_fee: 2_5000000i128,
        }
    );
    assert_eq!(market.get_payment_record(1), Some(early));

    let on_time = market
        .process_payment(payer, 2, 500_0000000i128, PaymentMethod::Fiat, due_date, true)
        .unwrap();
    assert_eq!(on_time.is_early_payment, false);
    assert_eq!(on_time.cashback_amount, 0);
    assert_eq!(on_time.platform_fee, 2_5000000i128);

    let late = market
        .process_payment(payer, 3, 333, PaymentMethod::Mixed, due_date + 5, true)
        .unwrap();
    assert_eq!(late.cashback_amount, 0);
    // 333 * 50 / 10000 = 1.665 -> 1
    assert_eq!(late.platform_fee, 1);

    assert_eq!(
        market.get_marketplace_stats(),
        MarketplaceStats {
            total_invoices_processed: 3,
            total_volume_processed: 1000_0000333i128,
            total_fees_collected: 5_0000001i128,
            active_invoices: 0,
            success_rate: 0,
            average_funding_time: 0,
            total_liquidity_provided: 0,
        }
    );
    assert!(market.get_funded_invoices().is_empty());
    assert_eq!(market.get_completed_invoices().to_vec(), vec![1, 2, 3]);
    assert_eq!(market.get_invoice_approval(2).unwrap().completion_date, Some(due_date));

    // A completed invoice cannot be paid again.
    assert_eq!(
        market.process_payment(payer, 1, 1, PaymentMethod::Crypto, 0, true),
        Err(Error::InvalidState)
    );
    assert_eq!(
        market.process_payment(payer, 99, 1, PaymentMethod::Crypto, 0, true),
        Err(Error::NotFound)
    );
    assert_eq!(
        market.process_payment(payer, 1, 1, PaymentMethod::Crypto, 0, false),
        Err(Error::Unauthorized)
    );
}

#[test]
fn a_tiny_early_payment_earns_no_cashback() {
    let env = Env::default();
    let admin = Principal::account(1);
    let creator = Principal::account(2);
    let (mut market, _, _) = create_marketplace_contract(&env, admin);
    market.submit_invoice(creator, 1, 500_0000000i128, 86400 * 30, 0, true).unwrap();
    let record = market.process_payment(creator, 1, 33, PaymentMethod::Crypto, 0, true).unwrap();
    assert!(record.is_early_payment);
    assert_eq!(record.cashback_amount, 0);
    assert_eq!(record.platform_fee, 0);
}

#[test]
fn a_negative_payment_rounds_toward_zero() {
    let env = Env::default();
    let admin = Principal::account(1);
    let creator = Principal::account(2);
    let (mut market, _, _) = create_marketplace_contract(&env, admin);
    market.submit_invoice(creator, 1, 500_0000000i128, 86400 * 30, 0, true).unwrap();
    let record = market.process_payment(creator, 1, -333, PaymentMethod::Crypto, 0, true).unwrap();
    // -333 * 300 / 10000 = -9.99 -> -9;  -333 * 50 / 10000 = -1.665 -> -1
    assert_eq!(record.cashback_amount, -9);
    assert_eq!(record.platform_fee, -1);
}

#[test]
fn request_funding_on_a_funded_invoice_is_refused() {
    let env = Env::default();
    let admin = Principal::account(1);
    let creator = Principal::account(2);
    let (mut market, _, _) = create_marketplace_contract(&env, admin);
    market.submit_invoice(creator, 1, 500_0000000i128, 86400 * 30, 0, true).unwrap();
    market.submit_invoice(creator, 2, 5000_0000000i128, 86400 * 30, 0, true).unwrap();

    assert_eq!(market.request_funding(creator, 1, 0, true), Err(Error::InvalidState));
    assert_eq!(market.request_funding(creator, 2, 0, true), Err(Error::InvalidState));
    assert_eq!(market.request_funding(creator, 3, 0, true), Err(Error::NotFound));
    assert_eq!(market.request_funding(creator, 1, 0, false), Err(Error::Unauthorized));
    assert_eq!(market.get_funded_invoices().to_vec(), vec![1]);
}

#[test]
fn request_funding_funds_an_approved_invoice() {
    let env = Env::default();
    let admin = Principal::account(1);
    let creator = Principal::account(2);
    let stranger = Principal::account(3);
    let (mut market, _, _) = create_marketplace_contract(&env, admin);
    market.submit_invoice(creator, 1, 5000_0000000i128, 86400 * 30, 0, true).unwrap();
    // An approved record that was not funded yet.
    {
        let record = market.approvals.get_mut(&1).unwrap();
        record.status = InvoiceStatus::Approved;
        record.approved_amount = Some(2000_0000000i128);
    }
    assert!(market.pending.remove_first(1));
    market.approved.push(1);
    market.take_events();

    assert_eq!(market.request_funding(stranger, 1, 5, true), Err(Error::Unauthorized));
    assert!(market.request_funding(creator, 1, 5, true).unwrap());
    let approval = market.get_invoice_approval(1).unwrap();
    assert_eq!(approval.status, InvoiceStatus::Funded);
    assert_eq!(approval.funded_amount, Some(1900_0000000i128));
    assert_eq!(approval.funding_date, Some(5));
    assert!(market.get_approved_invoices().is_empty());
    assert_eq!(market.get_funded_invoices().to_vec(), vec![1]);
    assert_eq!(
        market.take_events(),
        vec![MarketEvent::Funded {
            invoice_id: 1,
            funding_amount: 1900_0000000i128,
            expected_return: 1900_0000000i128 + 1900_0000000i128 * 700 * 29 / 3650000,
        }]
    );
    assert_eq!(market.request_funding(creator, 1, 6, true), Err(Error::InvalidState));
}

#[test]
fn settings_are_validated_one_by_one() {
    let env = Env::default();
    let admin = Principal::account(1);
    let (mut market, _, _) = create_marketplace_contract(&env, admin);
    let before = market.get_settings();

    assert_eq!(market.update_settings(admin, Some(1001), None, None, None, true), Err(Error::OutOfRange));
    assert_eq!(market.update_settings(admin, None, Some(101), None, None, true), Err(Error::OutOfRange));
    assert_eq!(market.update_settings(admin, None, None, Some(1001), None, true), Err(Error::OutOfRange));
    // A valid value beside an invalid one is not applied either.
    assert_eq!(
        market.update_settings(admin, Some(10), Some(50), Some(2000), Some(5), true),
        Err(Error::OutOfRange)
    );
    assert_eq!(
        market.update_settings(Principal::account(9), Some(10), None, None, None, true),
        Err(Error::Unauthorized)
    );
    assert_eq!(market.update_settings(admin, Some(10), None, None, None, false), Err(Error::Unauthorized));
    assert_eq!(market.get_settings(), before);

    market.update_settings(admin, Some(1000), Some(100), Some(1000), Some(-5), true).unwrap();
    let after = market.get_settings();
    assert_eq!(after.platform_fee, 1000);
    assert_eq!(after.max_funding_ratio, 100);
    assert_eq!(after.early_payment_bonus, 1000);
    assert_eq!(after.auto_approval_threshold, -5);
    assert_eq!(after.min_invoice_amount, before.min_invoice_amount);
    assert_eq!(after.admin, admin);
}

#[test]
fn pending_list_is_for_the_administrator() {
    let env = Env::default();
    let admin = Principal::account(1);
    let (market, _, _) = create_marketplace_contract(&env, admin);
    assert!(matches!(market.get_pending_invoices(Principal::account(2), true), Err(Error::Unauthorized)));
    assert!(matches!(market.get_pending_invoices(admin, false), Err(Error::Unauthorized)));
    assert!(market.get_pending_invoices(admin, true).is_ok());
}

#[test]
fn every_invoice_stands_on_the_list_of_its_status() {
    let env = Env::default();
    let admin = Principal::account(1);
    let creator = Principal::account(2);
    let (mut market, _, _) = create_marketplace_contract(&env, admin);
    let due = 86400 * 40;
    for id in 1..=8u64 {
        let amount = if id % 2 == 0 { 500_0000000i128 } else { 5000_0000000i128 };
        market.submit_invoice(creator, id, amount, due, 0, true).unwrap();
    }
    market.approve_invoice(admin, 1, 100, "A".to_string(), 1, true).unwrap();
    market.reject_invoice(admin, 3, "x".to_string(), true).unwrap();
    market.process_payment(creator, 2, 10, PaymentMethod::Crypto, 2, true).unwrap();
    market.process_payment(creator, 1, 10, PaymentMethod::Crypto, 2, true).unwrap();

    let lists = [
        (InvoiceStatus::Pending, market.get_pending_invoices(admin, true).unwrap().to_vec()),
        (InvoiceStatus::Approved, market.get_approved_invoices().to_vec()),
        (InvoiceStatus::Funded, market.get_funded_invoices().to_vec()),
        (InvoiceStatus::Completed, market.get_completed_invoices().to_vec()),
    ];
    assert_eq!(lists[0].1, vec![5, 7]);
    assert_eq!(lists[1].1, Vec::<u64>::new());
    assert_eq!(lists[2].1, vec![4, 6, 8]);
    assert_eq!(lists[3].1, vec![2, 1]);
    for id in 1..=8u64 {
        let status = market.get_invoice_approval(id).unwrap().status;
        for (listed, ids) in lists.iter() {
            let count = ids.iter().filter(|x| **x == id).count();
            assert_eq!(count, if *listed == status { 1 } else { 0 });
        }
    }
}

#[test]
fn can_fund_tells_whether_the_funding_fits() {
    use_can_fund(1000_0000000i128, 95, 700, 86400 * 30, 0, true);
    // The due date cannot lie in the past.
    use_can_fund(1000_0000000i128, 95, 700, 5, 6, false);
    use_can_fund(1000_0000000i128, 95, 700, 6, 6, true);
    use_can_fund(i128::MAX / 95, 95, 0, 6, 6, true);
    use_can_fund(i128::MAX / 95 + 1, 95, 0, 6, 6, false);
    use_can_fund(i128::MIN / 95, 95, 0, 6, 6, true);
    use_can_fund(i128::MIN / 95 - 1, 95, 0, 6, 6, false);
    // funding = 10^36; times 700 overflows, times 100 does not.
    let big = 1_000_000_000_000_000_000_000_000_000_000_000_000i128;
    use_can_fund(big, 100, 700, 86400, 0, false);
    use_can_fund(big, 100, 100, 86400, 0, true);
    use_can_fund(big, 100, 100, 86400 * 2, 0, false);
}

fn use_can_fund(approved: i128, ratio: u32, rate: u32, due_date: u64, now: u64, expected: bool) {
    assert_eq!(zenith::marketplace::can_fund(approved, ratio, rate, due_date, now), expected);
}

#[test]
fn can_checks_of_the_marketplace() {
    let env = Env::default();
    let admin = Principal::account(1);
    let creator = Principal::account(2);
    let (mut market, _, _) = create_marketplace_contract(&env, admin);
    assert!(market.can_submit_invoice(1, 500_0000000i128, 86400 * 30, 0));
    assert!(market.can_submit_invoice(1, 5000_0000000i128, 86400 * 30, 0));
    assert!(market.can_submit_invoice(1, 1, 0, 5));
    // Counting the days of a term that the window refuses asks nothing.
    assert!(market.can_submit_invoice(1, 500_0000000i128, u64::MAX, 0));
    market.submit_invoice(creator, 1, 5000_0000000i128, 86400 * 30, 0, true).unwrap();
    market.submit_invoice(creator, 2, 500_0000000i128, 86400 * 30, 0, true).unwrap();

    assert!(market.can_approve_invoice(1, 4000_0000000i128, 0));
    assert!(market.can_approve_invoice(1, 4000_0000000i128, 86400 * 30));
    // After the due date the days until it cannot be counted.
    assert!(!market.can_approve_invoice(1, 4000_0000000i128, 86400 * 30 + 1));
    // A refused approval asks nothing of the machine.
    assert!(market.can_approve_invoice(1, 6000_0000000i128, 86400 * 30 + 1));
    assert!(market.can_approve_invoice(2, 1, 86400 * 30 + 1));
    assert!(market.can_approve_invoice(3, 1, 86400 * 30 + 1));
    assert!(!market.can_approve_invoice(1, i128::MIN, 0));

    assert!(market.can_process_payment(2, 500_0000000i128));
    assert!(market.can_process_payment(1, i128::MAX));
    assert!(!market.can_process_payment(2, i128::MAX));
    assert!(market.can_process_payment(2, i128::MAX / 300));
    assert!(!market.can_process_payment(2, i128::MAX / 300 + 1));
    market.process_payment(creator, 2, i128::MAX / 300, PaymentMethod::Crypto, 0, true).unwrap();
    market.submit_invoice(creator, 3, 500_0000000i128, 86400 * 30, 0, true).unwrap();
    market.submit_invoice(creator, 4, 500_0000000i128, 86400 * 30, 0, true).unwrap();
    market.update_settings(admin, Some(0), None, Some(0), None, true).unwrap();
    let volume = market.get_marketplace_stats().total_volume_processed;
    assert!(market.can_process_payment(3, i128::MAX - volume));
    assert!(!market.can_process_payment(3, i128::MAX - volume + 1));
    market.process_payment(creator, 3, i128::MAX - volume, PaymentMethod::Crypto, 0, true).unwrap();
    assert!(!market.can_process_payment(4, 1));
    assert!(market.can_process_payment(4, 0));
    assert!(market.can_process_payment(4, -1));

    assert!(market.can_request_funding(1, u64::MAX));
    assert!(market.can_request_funding(3, u64::MAX));
    assert!(market.can_request_funding(9, u64::MAX));
}

#[test]
fn submitting_an_identifier_twice_is_refused() {
    let env = Env::default();
    let admin = Principal::account(1);
    let creator = Principal::account(2);
    let (mut market, _, _) = create_marketplace_contract(&env, admin);
    let due = 2_592_000u64;

    // A pending invoice.
    assert_eq!(
        market.submit_invoice(creator, 1, 50_000_000_000i128, due, 0, true),
        Ok(InvoiceStatus::Pending)
    );
    assert_eq!(
        market.submit_invoice(creator, 1, 50_000_000_000i128, due, 0, true),
        Err(Error::InvalidState)
    );
    assert_eq!(
        market.submit_invoice(Principal::account(9), 1, 500_0000000i128, due, 0, true),
        Err(Error::InvalidState)
    );
    assert_eq!(market.get_pending_invoices(admin, true).unwrap().to_vec(), vec![1]);
    assert!(market.get_funded_invoices().is_empty());
    assert_eq!(market.get_invoice_approval(1).unwrap().creator, creator);
    assert_eq!(market.get_invoice_approval(1).unwrap().amount, 50_000_000_000i128);

    // A funded invoice, then a completed one.
    market.submit_invoice(creator, 2, 500_0000000i128, due, 0, true).unwrap();
    assert_eq!(
        market.submit_invoice(creator, 2, 500_0000000i128, due, 0, true),
        Err(Error::InvalidState)
    );
    assert_eq!(market.get_funded_invoices().to_vec(), vec![2]);
    market.process_payment(creator, 2, 500_0000000i128, PaymentMethod::Crypto, 1, true).unwrap();
    assert_eq!(
        market.submit_invoice(creator, 2, 500_0000000i128, due, 0, true),
        Err(Error::InvalidState)
    );
    assert_eq!(
        market.submit_invoice(creator, 2, 5000_0000000i128, due, 0, true),
        Err(Error::InvalidState)
    );
    assert!(market.get_funded_invoices().is_empty());
    assert_eq!(market.get_completed_invoices().to_vec(), vec![2]);
    assert_eq!(market.get_invoice_approval(2).unwrap().status, InvoiceStatus::Completed);
    assert_eq!(market.get_marketplace_stats().total_invoices_processed, 1);
    assert_eq!(
        market.process_payment(creator, 2, 5, PaymentMethod::Crypto, 2, true),
        Err(Error::InvalidState)
    );

    // A rejected invoice stays rejected.
    market.reject_invoice(admin, 1, "no".to_string(), true).unwrap();
    assert_eq!(
        market.submit_invoice(creator, 1, 500_0000000i128, due, 0, true),
        Err(Error::InvalidState)
    );
    assert_eq!(market.get_invoice_approval(1).unwrap().status, InvoiceStatus::Rejected);
    assert!(market.get_pending_invoices(admin, true).unwrap().is_empty());

    // The amount and the due date are tested first.
    assert_eq!(market.submit_invoice(creator, 1, 1, due, 0, true), Err(Error::OutOfRange));
    assert_eq!(
        market.submit_invoice(creator, 1, 500_0000000i128, 0, 0, true),
        Err(Error::InvalidDueDate)
    );
    assert_eq!(
        market.submit_invoice(creator, 1, 500_0000000i128, due, 0, false),
        Err(Error::Unauthorized)
    );
    // The second submission asks nothing of the machine.
    assert!(market.can_submit_invoice(1, 500_0000000i128, due, 0));
    let events = market.take_events().len();
    assert_eq!(events, 1 + 1 + 2 + 1 + 1);
}

#[test]
fn checked_marketplace_operations_work_on_every_input() {
    let env = Env::default();
    let admin = Principal::account(1);
    let creator = Principal::account(2);
    let (mut market, _, _) = create_marketplace_contract(&env, admin);
    let due = 86400 * 30;
    assert_eq!(
        market.checked_submit_invoice(creator, 1, 5000_0000000i128, due, 0, true),
        Some(Ok(InvoiceStatus::Pending))
    );
    assert_eq!(
        market.checked_submit_invoice(creator, 1, 5000_0000000i128, due, 0, true),
        Some(Err(Error::InvalidState))
    );
    assert_eq!(
        market.checked_submit_invoice(creator, 2, 500_0000000i128, due, 0, true),
        Some(Ok(InvoiceStatus::Funded))
    );
    // After the due date the days until it cannot be counted.
    assert_eq!(
        market.checked_approve_invoice(admin, 1, 4000_0000000i128, "A".to_string(), due + 1, true),
        None
    );
    assert_eq!(market.get_invoice_approval(1).unwrap().status, InvoiceStatus::Pending);
    assert_eq!(market.get_pending_invoices(admin, true).unwrap().to_vec(), vec![1]);
    assert_eq!(
        market.checked_approve_invoice(admin, 1, 4000_0000000i128, "A".to_string(), due, true),
        Some(Ok(true))
    );
    assert_eq!(
        market.checked_approve_invoice(admin, 1, 4000_0000000i128, "A".to_string(), due, true),
        Some(Err(Error::InvalidState))
    );
    assert_eq!(market.checked_process_payment(creator, 2, i128::MAX, PaymentMethod::Fiat, 5, true), None);
    assert_eq!(market.get_funded_invoices().to_vec(), vec![2, 1]);
    let paid = market.checked_process_payment(creator, 2, 500_0000000i128, PaymentMethod::Fiat, 5, true);
    assert_eq!(paid.unwrap().unwrap().cashback_amount, 15_0000000i128);
    assert_eq!(
        market.checked_process_payment(creator, 2, 500_0000000i128, PaymentMethod::Fiat, 5, true),
        Some(Err(Error::InvalidState))
    );
    assert_eq!(market.checked_request_funding(creator, 1, 5, true), Some(Err(Error::InvalidState)));
    assert_eq!(market.checked_request_funding(creator, 8, 5, true), Some(Err(Error::NotFound)));
    assert_eq!(market.get_funded_invoices().to_vec(), vec![1]);
    assert_eq!(market.get_completed_invoices().to_vec(), vec![2]);
}
