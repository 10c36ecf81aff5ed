use transaction_bench::blockhash_updater::{
    BlockhashUpdater, BlockhashUpdaterConfig, BlockhashUpdaterError, CheckAction, FetchAction,
    FetchEvent, UpdaterAction, UpdaterEvent,
};

const MS: u128 = 1_000_000;
const SEC: u128 = 1_000_000_000;

fn test_config() -> BlockhashUpdaterConfig {
    BlockhashUpdaterConfig {
        update_interval: 200 * MS,
        stuck_interval: 600 * MS,
        not_updating_interval: 300 * MS,
        error_report_interval: 1000 * MS,
    }
}

fn polled(fetched: Option<[u8; 32]>, now: u128) -> UpdaterEvent {
    UpdaterEvent::Polled { fetched, now }
}

fn poll() -> UpdaterAction {
    UpdaterAction::Poll { not_updating_for_secs: None }
}

fn publish(blockhash: [u8; 32]) -> UpdaterAction {
    UpdaterAction::Publish { blockhash }
}

#[test]
fn test_blockhash_updates_successfully() {
    let mut updater = BlockhashUpdater::with_config(test_config());
    assert_eq!(updater.update_interval(), 200 * MS);
    assert_eq!(updater.run(UpdaterEvent::Started { now: 0 }), poll());
    assert_eq!(updater.run(polled(Some([1; 32]), 1)), publish([1; 32]));
    assert_eq!(updater.run(UpdaterEvent::Published { now: 2 }), poll());
    assert_eq!(updater.run(UpdaterEvent::ChannelClosed), UpdaterAction::Finish);
}

#[test]
fn test_blockhash_updates_stuck() {
    let mut updater = BlockhashUpdater::with_config(test_config());
    updater.run(UpdaterEvent::Started { now: 0 });
    assert_eq!(updater.run(polled(None, 0)), poll());
    assert_eq!(updater.run(polled(None, 200 * MS)), poll());
    assert_eq!(updater.run(polled(None, 400 * MS)), poll());
    assert_eq!(updater.run(polled(None, 600 * MS)), poll());
    assert_eq!(
        updater.run(polled(None, 800 * MS)),
        UpdaterAction::Fail(BlockhashUpdaterError::BlockhashStuck)
    );
    assert_eq!(BlockhashUpdaterError::BlockhashStuck.message(), "Blockhash is stuck.");
}

#[test]
fn test_blockhash_updates_stuck_recover() {
    let mut updater = BlockhashUpdater::with_config(test_config());
    updater.run(UpdaterEvent::Started { now: 0 });
    // Nothing came back: nothing is published.
    assert_eq!(updater.run(polled(None, 500 * MS)), poll());
    assert_eq!(updater.run(polled(Some([2; 32]), 600 * MS)), publish([2; 32]));
    assert_eq!(updater.run(UpdaterEvent::Published { now: 600 * MS }), poll());
    assert_eq!(updater.run(polled(Some([2; 32]), 1200 * MS)), poll_warning(0));
    assert_eq!(updater.run(UpdaterEvent::ChannelClosed), UpdaterAction::Finish);
}

fn poll_warning(secs: u128) -> UpdaterAction {
    UpdaterAction::Poll { not_updating_for_secs: Some(secs) }
}

#[test]
fn test_same_blockhash_is_not_published_again() {
    let mut updater = BlockhashUpdater::new();
    updater.run(UpdaterEvent::Started { now: 0 });
    // The hash of no block is what nobody has published yet.
    assert_eq!(updater.run(polled(Some([0; 32]), SEC)), poll());
    assert_eq!(updater.run(polled(Some([1; 32]), 2 * SEC)), publish([1; 32]));
    assert_eq!(updater.run(UpdaterEvent::Published { now: 2 * SEC }), poll());
    assert_eq!(updater.run(polled(Some([1; 32]), 3 * SEC)), poll());
    assert_eq!(updater.run(polled(Some([2; 32]), 4 * SEC)), publish([2; 32]));
    assert_eq!(updater.run(UpdaterEvent::PublishFailed), UpdaterAction::Finish);
}

#[test]
fn test_default_intervals() {
    let mut updater = BlockhashUpdater::with_stale_slots(145);
    assert_eq!(updater.update_interval(), SEC);
    assert_eq!(updater.stale_slots(), 145);
    updater.run(UpdaterEvent::Started { now: 0 });
    assert_eq!(updater.run(polled(None, 30 * SEC)), poll());
    // Warnings come once a second.
    assert_eq!(updater.run(polled(None, 30 * SEC + 1)), poll_warning(30));
    assert_eq!(updater.run(polled(None, 31 * SEC)), poll());
    assert_eq!(updater.run(polled(None, 31 * SEC + 1)), poll_warning(31));
    assert_eq!(updater.run(polled(None, 120 * SEC)), poll_warning(120));
    assert_eq!(
        updater.run(polled(None, 120 * SEC + 1)),
        UpdaterAction::Fail(BlockhashUpdaterError::BlockhashStuck)
    );
}

#[test]
fn test_delay_line_ages_blockhashes() {
    let mut updater = BlockhashUpdater::with_stale_secs(10 * SEC);
    updater.run(UpdaterEvent::Started { now: 0 });
    assert_eq!(updater.run(polled(Some([1; 32]), SEC)), poll());
    assert_eq!(updater.run(polled(Some([2; 32]), 2 * SEC)), poll());
    assert_eq!(updater.run(polled(Some([3; 32]), 3 * SEC)), poll());
    assert_eq!(updater.run(polled(Some([3; 32]), 11 * SEC - 1)), poll());
    // The newest blockhash that is old enough.
    assert_eq!(updater.run(polled(Some([4; 32]), 12 * SEC)), publish([2; 32]));
    assert_eq!(updater.run(UpdaterEvent::Published { now: 12 * SEC }), poll());
    assert_eq!(updater.run(polled(None, 12 * SEC)), poll());
    assert_eq!(updater.run(polled(None, 13 * SEC)), publish([3; 32]));
    assert_eq!(updater.run(UpdaterEvent::Published { now: 13 * SEC }), poll());
    // What counts is when the node last had something new.
    assert_eq!(updater.run(polled(None, 132 * SEC)), publish([4; 32]));
    assert_eq!(updater.run(UpdaterEvent::Published { now: 132 * SEC }), poll_warning(120));
    assert_eq!(
        updater.run(polled(None, 132 * SEC + 1)),
        UpdaterAction::Fail(BlockhashUpdaterError::BlockhashStuck)
    );
}

#[test]
fn test_fetching_an_aged_blockhash() {
    let updater = BlockhashUpdater::with_stale_slots(145);
    let hash = solana_hash::Hash::new_from_array([9; 32]);
    let turn = |event: FetchEvent| updater.fetch_aged_blockhash(event);
    assert_eq!(turn(FetchEvent::Begun), FetchAction::GetSlot);
    assert_eq!(
        turn(FetchEvent::SlotAnswered(Ok(1000))),
        FetchAction::GetBlocks { start_slot: 705, target_slot: 855 }
    );
    assert_eq!(
        turn(FetchEvent::SlotAnswered(Ok(200))),
        FetchAction::GetBlocks { start_slot: 0, target_slot: 55 }
    );
    assert_eq!(
        turn(FetchEvent::SlotAnswered(Ok(3))),
        FetchAction::GetBlocks { start_slot: 0, target_slot: 0 }
    );
    let blocks = |answer: Result<Vec<u64>, String>| FetchEvent::BlocksAnswered {
        start_slot: 705,
        target_slot: 855,
        answer,
    };
    assert_eq!(turn(blocks(Ok(vec![800, 853]))), FetchAction::GetBlock { block_slot: 853 });
    let block = |answer: Result<String, String>| FetchEvent::BlockAnswered {
        block_slot: 853,
        answer,
    };
    assert_eq!(turn(block(Ok(hash.to_string()))), FetchAction::Done(Ok([9; 32])));

    let error = |action: FetchAction| match action {
        FetchAction::Done(Err(error)) => error,
        _ => panic!("expected an error"),
    };
    assert_eq!(
        error(turn(FetchEvent::SlotAnswered(Err("down".to_string())))),
        "getSlot failed: down"
    );
    assert_eq!(
        error(turn(blocks(Err("down".to_string())))),
        "getBlocks(705..=855) failed: down. The target RPC must serve getBlock/getBlocks; run the \
         validator with --enable-rpc-transaction-history."
    );
    assert_eq!(error(turn(blocks(Ok(vec![])))), "no produced block in [705, 855]");
    assert_eq!(
        error(turn(block(Err("down".to_string())))),
        "getBlock(853) failed: down. The target RPC must serve getBlock; run the validator with \
         --enable-rpc-transaction-history."
    );
    let parse_error = "?".parse::<solana_hash::Hash>().unwrap_err();
    assert_eq!(
        error(turn(block(Ok("?".to_string())))),
        format!("failed to parse blockhash of slot 853: {parse_error}")
    );
}

#[test]
fn test_checking_the_aged_blockhash_path() {
    let fresh = BlockhashUpdater::new();
    assert_eq!(
        fresh.check_stale_blockhash_available(FetchEvent::Begun),
        CheckAction::Done(Ok(()))
    );
    let stale = BlockhashUpdater::with_stale_slots(1);
    let turn = |event: FetchEvent| stale.check_stale_blockhash_available(event);
    assert_eq!(turn(FetchEvent::Begun), CheckAction::Fetch(FetchAction::GetSlot));
    assert_eq!(
        turn(FetchEvent::SlotAnswered(Err("down".to_string()))),
        CheckAction::Done(Err("getSlot failed: down".to_string()))
    );
    let notation = solana_hash::Hash::new_from_array([9; 32]).to_string();
    assert_eq!(
        turn(FetchEvent::BlockAnswered { block_slot: 1, answer: Ok(notation) }),
        CheckAction::Done(Ok(()))
    );
}

#[test]
fn test_fetched_blockhashes_are_published_without_repeats() {
    for mut updater in [BlockhashUpdater::new(), BlockhashUpdater::with_stale_slots(9)] {
        let mut published = vec![];
        let mut action = updater.run(UpdaterEvent::Started { now: 0 });
        for byte in [Some(0), Some(1), None, Some(1), Some(2), Some(1), Some(1), Some(3)] {
            assert_eq!(action, poll());
            action = updater.run(polled(byte.map(|byte| [byte; 32]), 1));
            if let UpdaterAction::Publish { blockhash } = action {
                published.push(blockhash[0]);
                action = updater.run(UpdaterEvent::Published { now: 1 });
            }
        }
        assert_eq!(published, vec![1, 2, 1, 3]);
    }
}
