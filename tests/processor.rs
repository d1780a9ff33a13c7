use review_store::error::ReviewError;
use review_store::instruction::ReviewInstruction;
use review_store::processor::{process_instruction, Account, ACCOUNT_LEN};
use review_store::state::AccountState;
use solana_program::pubkey::Pubkey;
use solana_program::system_program;

fn account(key: &Pubkey, is_signer: bool, owner: &Pubkey, data: Vec<u8>) -> Account {
    Account { key: key.to_bytes(), is_signer, owner: owner.to_bytes(), data }
}

fn add_data(title: &str, rating: u8, description: &str, location: &str) -> Vec<u8> {
    ReviewInstruction::AddReview {
        title: title.to_string(),
        rating,
        description: description.to_string(),
        location: location.to_string(),
    }
    .pack()
}

fn update_data(title: &str, rating: u8, description: &str, location: &str) -> Vec<u8> {
    ReviewInstruction::UpdateReview {
        title: title.to_string(),
        rating,
        description: description.to_string(),
        location: location.to_string(),
    }
    .pack()
}

fn pda_of(user: &Pubkey, title: &str, program_id: &Pubkey) -> Pubkey {
    Pubkey::find_program_address(&[user.as_ref(), title.as_bytes()], program_id).0
}

/// Accounts for an add: the signing user, an empty storage account at the
/// derived address, and the system program.
fn add_accounts(user: &Pubkey, title: &str, program_id: &Pubkey, signer: bool) -> Vec<Account> {
    let pda = pda_of(user, title, program_id);
    vec![
        account(user, signer, &system_program::id(), vec![0; 1000]),
        account(&pda, false, program_id, vec![0; 1000]),
        account(&system_program::id(), false, &system_program::id(), vec![]),
    ]
}

fn stored(accounts: &[Account]) -> AccountState {
    AccountState::unpack_unchecked(&accounts[1].data)
}

#[test]
fn test_process_instruction_add_review() {
    let program_id = Pubkey::new_unique();
    let user_key = Pubkey::new_unique();
    let mut accounts = add_accounts(&user_key, "Some title", &program_id, true);
    let instruction_data = add_data("Some title", 5, "Great!", "Somewhere");
    let result = process_instruction(&program_id.to_bytes(), &mut accounts, &instruction_data);
    assert!(result.is_ok());
}

#[test]
fn test_process_instruction_update_review() {
    let program_id = Pubkey::new_unique();
    let user_key = Pubkey::new_unique();
    let pda = pda_of(&user_key, "Some title", &program_id);
    let pda_data = AccountState {
        title: "Some title".to_string(),
        rating: 4,
        description: "Good".to_string(),
        location: "Somewhere".to_string(),
        is_initialized: true,
    }
    .pack();
    let mut accounts = vec![
        account(&user_key, true, &system_program::id(), vec![0; 1000]),
        account(&pda, false, &program_id, pda_data),
    ];
    let instruction_data = update_data("Some title", 5, "Great!", "Somewhere else");
    let before = accounts.clone();
    let result = process_instruction(&program_id.to_bytes(), &mut accounts, &instruction_data);
    // The storage is exactly as long as the old record, and the new record
    // is seven bytes longer: it cannot be written.
    assert_eq!(result, Err(ReviewError::RecordTooLarge));
    assert_eq!(accounts, before);
}

#[test]
fn update_in_reserved_storage() {
    let program_id = Pubkey::new_unique();
    let user_key = Pubkey::new_unique();
    let pda = pda_of(&user_key, "Some title", &program_id);
    let mut pda_data = AccountState {
        title: "Some title".to_string(),
        rating: 4,
        description: "Good".to_string(),
        location: "Somewhere".to_string(),
        is_initialized: true,
    }
    .pack();
    pda_data.resize(1000, 0);
    let mut accounts = vec![
        account(&user_key, true, &system_program::id(), vec![0; 1000]),
        account(&pda, false, &program_id, pda_data),
    ];
    let instruction_data = update_data("Some title", 5, "Great!", "Somewhere else");
    let result = process_instruction(&program_id.to_bytes(), &mut accounts, &instruction_data);
    assert_eq!(result, Ok(None));
    assert_eq!(accounts[1].data.len(), 1000);
    let record = stored(&accounts);
    assert_eq!(record.title, "Some title");
    assert_eq!(record.rating, 5);
    assert_eq!(record.description, "Great!");
    assert_eq!(record.location, "Somewhere else");
}

#[test]
fn add_writes_record_and_requests_storage() {
    let program_id = Pubkey::new_unique();
    let user = Pubkey::new_unique();
    let mut accounts = add_accounts(&user, "Some title", &program_id, true);
    let (pda, bump) =
        Pubkey::find_program_address(&[user.as_ref(), b"Some title"], &program_id);
    let alloc = process_instruction(
        &program_id.to_bytes(),
        &mut accounts,
        &add_data("Some title", 5, "Great!", "Somewhere"),
    )
    .unwrap()
    .unwrap();
    assert_eq!(alloc.address, pda.to_bytes());
    assert_eq!(alloc.bump, bump);
    assert_eq!(alloc.authority, user.to_bytes());
    assert_eq!(alloc.title, b"Some title".to_vec());
    assert_eq!(alloc.space, ACCOUNT_LEN);
    assert_eq!(accounts[1].data.len(), 1000);
    assert_eq!(accounts[1].owner, program_id.to_bytes());
    let record = stored(&accounts);
    assert!(record.is_initialized);
    assert_eq!(record.title, "Some title");
    assert_eq!(record.rating, 5);
    assert_eq!(record.description, "Great!");
    assert_eq!(record.location, "Somewhere");
}

#[test]
fn add_rating_bounds() {
    let program_id = Pubkey::new_unique();
    let user = Pubkey::new_unique();
    for (rating, ok) in [(0u8, false), (1, true), (5, true), (6, false)] {
        let mut accounts = add_accounts(&user, "Bounds", &program_id, true);
        let before = accounts.clone();
        let result = process_instruction(
            &program_id.to_bytes(),
            &mut accounts,
            &add_data("Bounds", rating, "d", "l"),
        );
        if ok {
            assert!(result.is_ok());
            assert_eq!(stored(&accounts).rating, rating);
        } else {
            assert_eq!(result, Err(ReviewError::InvalidRating));
            assert_eq!(accounts, before);
        }
    }
}

#[test]
fn add_on_created_record_is_refused() {
    let program_id = Pubkey::new_unique();
    let user = Pubkey::new_unique();
    let mut accounts = add_accounts(&user, "Twice", &program_id, true);
    process_instruction(&program_id.to_bytes(), &mut accounts, &add_data("Twice", 3, "a", "b"))
        .unwrap();
    let bytes = accounts[1].data.clone();
    let result = process_instruction(
        &program_id.to_bytes(),
        &mut accounts,
        &add_data("Twice", 4, "other", "place"),
    );
    assert_eq!(result, Err(ReviewError::AccountAlreadyInitialized));
    assert_eq!(accounts[1].data, bytes);
}

#[test]
fn update_of_foreign_storage_is_refused_before_decoding() {
    let program_id = Pubkey::new_unique();
    let user = Pubkey::new_unique();
    let other_program = Pubkey::new_unique();
    let pda = pda_of(&user, "Owned", &program_id);
    // The storage holds no decodable record at all.
    let mut accounts = vec![
        account(&user, true, &system_program::id(), vec![]),
        account(&pda, false, &other_program, vec![7; 3]),
    ];
    let before = accounts.clone();
    let result = process_instruction(
        &program_id.to_bytes(),
        &mut accounts,
        &update_data("Owned", 3, "x", "y"),
    );
    assert_eq!(result, Err(ReviewError::IllegalOwner));
    assert_eq!(accounts, before);
}

#[test]
fn update_keeps_stored_title() {
    let program_id = Pubkey::new_unique();
    let user = Pubkey::new_unique();
    let mut accounts = add_accounts(&user, "Cafe", &program_id, true);
    process_instruction(&program_id.to_bytes(), &mut accounts, &add_data("Cafe", 4, "nice", "here"))
        .unwrap();
    let cafe_address = accounts[1].key;
    accounts.truncate(2);
    let result = process_instruction(
        &program_id.to_bytes(),
        &mut accounts,
        &update_data("Bistro", 2, "nice", "here"),
    );
    assert_eq!(result, Ok(None));
    assert_eq!(accounts[1].key, cafe_address);
    let record = stored(&accounts);
    assert_eq!(record.title, "Cafe");
    assert_eq!(record.rating, 2);
}

#[test]
fn missing_signature_is_refused() {
    let program_id = Pubkey::new_unique();
    let user = Pubkey::new_unique();
    let mut accounts = add_accounts(&user, "Unsigned", &program_id, false);
    let before = accounts.clone();
    let result = process_instruction(
        &program_id.to_bytes(),
        &mut accounts,
        &add_data("Unsigned", 3, "d", "l"),
    );
    assert_eq!(result, Err(ReviewError::MissingRequiredSignature));
    assert_eq!(accounts, before);

    let mut accounts = add_accounts(&user, "Unsigned", &program_id, true);
    process_instruction(&program_id.to_bytes(), &mut accounts, &add_data("Unsigned", 3, "d", "l"))
        .unwrap();
    accounts[0].is_signer = false;
    let before = accounts.clone();
    let result = process_instruction(
        &program_id.to_bytes(),
        &mut accounts,
        &update_data("Unsigned", 4, "e", "m"),
    );
    assert_eq!(result, Err(ReviewError::MissingRequiredSignature));
    assert_eq!(accounts, before);
}

#[test]
fn add_then_update_end_to_end() {
    let program_id = Pubkey::new_unique();
    let user = Pubkey::new_unique();
    let mut accounts = add_accounts(&user, "Joe's", &program_id, true);
    process_instruction(
        &program_id.to_bytes(),
        &mut accounts,
        &add_data("Joe's", 5, "Great!", "Main St"),
    )
    .unwrap();
    process_instruction(
        &program_id.to_bytes(),
        &mut accounts,
        &update_data("Joe's", 3, "Okay", "Main St"),
    )
    .unwrap();
    let record = stored(&accounts);
    assert_eq!(record.title, "Joe's");
    assert_eq!(record.rating, 3);
    assert_eq!(record.description, "Okay");
    assert_eq!(record.location, "Main St");
    assert!(record.is_initialized);
}

#[test]
fn wrong_address_is_refused() {
    let program_id = Pubkey::new_unique();
    let user = Pubkey::new_unique();
    let mut accounts = add_accounts(&user, "Right", &program_id, true);
    let result = process_instruction(
        &program_id.to_bytes(),
        &mut accounts,
        &add_data("Wrong", 3, "d", "l"),
    );
    assert_eq!(result, Err(ReviewError::InvalidPda));

    let mut accounts = add_accounts(&user, "Right", &program_id, true);
    process_instruction(&program_id.to_bytes(), &mut accounts, &add_data("Right", 3, "d", "l"))
        .unwrap();
    accounts[0].key = Pubkey::new_unique().to_bytes();
    let result = process_instruction(
        &program_id.to_bytes(),
        &mut accounts,
        &update_data("Right", 4, "d", "l"),
    );
    assert_eq!(result, Err(ReviewError::InvalidPda));
}

#[test]
fn update_of_uncreated_record_is_refused() {
    let program_id = Pubkey::new_unique();
    let user = Pubkey::new_unique();
    // An all-zero buffer reads as the empty record, whose title is empty.
    let pda = pda_of(&user, "", &program_id);
    let mut accounts = vec![
        account(&user, true, &system_program::id(), vec![]),
        account(&pda, false, &program_id, vec![0; 1000]),
    ];
    let result = process_instruction(
        &program_id.to_bytes(),
        &mut accounts,
        &update_data("", 3, "d", "l"),
    );
    assert_eq!(result, Err(ReviewError::UninitializedAccount));
}

#[test]
fn update_rating_bounds() {
    let program_id = Pubkey::new_unique();
    let user = Pubkey::new_unique();
    let mut accounts = add_accounts(&user, "Rated", &program_id, true);
    process_instruction(&program_id.to_bytes(), &mut accounts, &add_data("Rated", 3, "d", "l"))
        .unwrap();
    let before = accounts.clone();
    for rating in [0u8, 6] {
        let result = process_instruction(
            &program_id.to_bytes(),
            &mut accounts,
            &update_data("Rated", rating, "d", "l"),
        );
        assert_eq!(result, Err(ReviewError::InvalidRating));
        assert_eq!(accounts, before);
    }
}

#[test]
fn too_few_accounts_are_refused() {
    let program_id = Pubkey::new_unique();
    let user = Pubkey::new_unique();
    let mut accounts = add_accounts(&user, "Few", &program_id, true);
    accounts.truncate(2);
    let result =
        process_instruction(&program_id.to_bytes(), &mut accounts, &add_data("Few", 3, "d", "l"));
    assert_eq!(result, Err(ReviewError::NotEnoughAccountKeys));
    accounts.truncate(1);
    let result = process_instruction(
        &program_id.to_bytes(),
        &mut accounts,
        &update_data("Few", 3, "d", "l"),
    );
    assert_eq!(result, Err(ReviewError::NotEnoughAccountKeys));
}

#[test]
fn oversized_record_is_refused() {
    let program_id = Pubkey::new_unique();
    let user = Pubkey::new_unique();
    let long = "x".repeat(990);
    let mut accounts = add_accounts(&user, "Big", &program_id, true);
    let before = accounts.clone();
    let result =
        process_instruction(&program_id.to_bytes(), &mut accounts, &add_data("Big", 3, &long, ""));
    assert_eq!(result, Err(ReviewError::RecordTooLarge));
    assert_eq!(accounts, before);

    // 14 bytes of framing, 3 of title: 983 bytes of text fit exactly.
    let fits = "y".repeat(983);
    let result =
        process_instruction(&program_id.to_bytes(), &mut accounts, &add_data("Big", 3, &fits, ""));
    assert!(result.is_ok());
    let result = process_instruction(
        &program_id.to_bytes(),
        &mut accounts,
        &update_data("Big", 4, &long, ""),
    );
    assert_eq!(result, Err(ReviewError::RecordTooLarge));
    assert_eq!(stored(&accounts).description, fits);
}

#[test]
fn long_title_has_no_address() {
    let program_id = Pubkey::new_unique();
    let user = Pubkey::new_unique();
    let title = "t".repeat(33);
    let mut accounts = vec![
        account(&user, true, &system_program::id(), vec![]),
        account(&Pubkey::new_unique(), false, &program_id, vec![0; 1000]),
        account(&system_program::id(), false, &system_program::id(), vec![]),
    ];
    let result =
        process_instruction(&program_id.to_bytes(), &mut accounts, &add_data(&title, 3, "d", "l"));
    assert_eq!(result, Err(ReviewError::AddressDerivationFailed));
}

#[test]
fn malformed_instruction_is_refused() {
    let program_id = Pubkey::new_unique();
    let user = Pubkey::new_unique();
    let good = add_data("Bad", 3, "d", "l");
    let mut trailing = good.clone();
    trailing.push(0);
    let mut wrong_tag = good.clone();
    wrong_tag[0] = 2;
    let truncated = good[..good.len() - 1].to_vec();
    let cases: Vec<Vec<u8>> = vec![vec![], wrong_tag, trailing, truncated];
    for data in cases {
        let mut accounts = add_accounts(&user, "Bad", &program_id, true);
        let before = accounts.clone();
        let result = process_instruction(&program_id.to_bytes(), &mut accounts, &data);
        assert_eq!(result, Err(ReviewError::InvalidInstructionData));
        assert_eq!(accounts, before);
    }
}
