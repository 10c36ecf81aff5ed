//! Keypairs, instructions and signed transactions as plain values, and the calls
//! that turn them into bytes.
//!
//! An address is 32 bytes, a keypair is its 32-byte secret, an instruction is a
//! program address, a list of accounts and a byte string. What only the Solana
//! crates can compute (public keys, instruction data, compiled and signed
//! transactions) is obtained from them here, from plain values to plain values.
use solana_instruction::{AccountMeta as SolanaMeta, Instruction as SolanaInstruction};
use solana_keypair::Keypair as SolanaKeypair;
use solana_message::v1::{Message as V1Message, TransactionConfig as V1Config};
use solana_message::VersionedMessage;
use solana_transaction::versioned::VersionedTransaction;
use solana_transaction::Transaction;
use vstd::prelude::*;

verus! {

/// An account that an instruction touches.
#[derive(Clone, Copy, Debug, PartialEq, Eq)]
pub struct AccountMeta {
    pub pubkey: [u8; 32],
    pub is_signer: bool,
    pub is_writable: bool,
}

/// One instruction of a transaction.
#[derive(Clone, Debug, PartialEq, Eq)]
pub struct Instruction {
    pub program_id: [u8; 32],
    pub accounts: Vec<AccountMeta>,
    pub data: Vec<u8>,
}

/// The compute-budget settings of a V1 transaction.
#[derive(Clone, Copy, Debug, PartialEq, Eq)]
pub struct TransactionConfig {
    pub priority_fee: Option<u64>,
    pub compute_unit_limit: Option<u32>,
    pub loaded_accounts_data_size_limit: Option<u32>,
    pub heap_size: Option<u32>,
}

/// What an [`AccountMeta`] says.
pub struct MetaView {
    pub pubkey: Seq<u8>,
    pub is_signer: bool,
    pub is_writable: bool,
}

/// What an [`Instruction`] says.
pub struct InstructionView {
    pub program_id: Seq<u8>,
    pub accounts: Seq<MetaView>,
    pub data: Seq<u8>,
}

impl View for AccountMeta {
    type V = MetaView;

    open spec fn view(&self) -> MetaView {
        MetaView {
            pubkey: self.pubkey@,
            is_signer: self.is_signer,
            is_writable: self.is_writable,
        }
    }
}

impl View for Instruction {
    type V = InstructionView;

    open spec fn view(&self) -> InstructionView {
        InstructionView {
            program_id: self.program_id@,
            accounts: self.accounts@.map_values(|meta: AccountMeta| meta@),
            data: self.data@,
        }
    }
}

/// What each of a list of instructions says.
pub open spec fn instruction_views(instructions: Seq<Instruction>) -> Seq<InstructionView> {
    instructions.map_values(|instruction: Instruction| instruction@)
}

/// `n` in `width` bytes, least significant byte first.
pub open spec fn le_bytes(n: nat, width: nat) -> Seq<u8>
    decreases width,
{
    if width == 0 {
        Seq::empty()
    } else {
        seq![(n % 256) as u8] + le_bytes(n / 256, (width - 1) as nat)
    }
}

/// Address of the system program: 32 zero bytes.
pub open spec fn system_program() -> Seq<u8> {
    Seq::new(32, |i: int| 0u8)
}

/// Address of the compute-budget program
/// (`ComputeBudget111111111111111111111111111111`).
pub open spec fn compute_budget_program() -> Seq<u8> {
    seq![
        3, 6, 70, 111, 229, 33, 23, 50, 255, 236, 173, 186, 114, 195, 155, 231, 188, 140, 229, 187,
        197, 247, 18, 107, 44, 67, 155, 58, 64, 0, 0, 0,
    ]
}

/// Address of the SPL instruction padding program
/// (`iXpADd6AW1k5FaaXum5qHbSqyd7TtoN6AD7suVa83MF`).
pub open spec fn spl_padding_program() -> Seq<u8> {
    seq![
        10, 163, 167, 84, 214, 41, 174, 25, 69, 12, 52, 150, 84, 36, 182, 244, 232, 137, 120, 134,
        212, 24, 17, 87, 222, 76, 134, 225, 154, 53, 14, 134,
    ]
}

/// A transfer of `lamports` from one account, which signs, to another.
pub open spec fn transfer_view(from: Seq<u8>, to: Seq<u8>, lamports: u64) -> InstructionView {
    InstructionView {
        program_id: system_program(),
        accounts: seq![
            MetaView { pubkey: from, is_signer: true, is_writable: true },
            MetaView { pubkey: to, is_signer: false, is_writable: true },
        ],
        data: le_bytes(2, 4) + le_bytes(lamports as nat, 8),
    }
}

/// An instruction to the compute-budget program: a tag and an argument.
pub open spec fn compute_budget_view(tag: u8, argument: Seq<u8>) -> InstructionView {
    InstructionView {
        program_id: compute_budget_program(),
        accounts: Seq::empty(),
        data: seq![tag] + argument,
    }
}

pub open spec fn unit_limit_view(units: u32) -> InstructionView {
    compute_budget_view(2, le_bytes(units as nat, 4))
}

pub open spec fn unit_price_view(micro_lamports: u64) -> InstructionView {
    compute_budget_view(3, le_bytes(micro_lamports as nat, 8))
}

pub open spec fn loaded_data_limit_view(bytes: u32) -> InstructionView {
    compute_budget_view(4, le_bytes(bytes as nat, 4))
}

/// `inner`, wrapped for the padding program: a tag, the two lengths, the inner
/// data, then `data_size` bytes of padding; the inner program joins the accounts.
pub open spec fn wrapped_view(
    program_id: Seq<u8>,
    inner: InstructionView,
    data_size: u32,
) -> InstructionView {
    InstructionView {
        program_id,
        accounts: inner.accounts.push(
            MetaView { pubkey: inner.program_id, is_signer: false, is_writable: false },
        ),
        data: seq![1u8] + le_bytes(inner.accounts.len(), 4) + le_bytes(inner.data.len(), 4)
            + inner.data + Seq::new(data_size as nat, |i: int| (i % 255) as u8),
    }
}

/// The padding program takes at most 10 KiB of data and 128 accounts.
pub open spec fn can_wrap(inner: InstructionView, data_size: u32) -> bool {
    &&& 9 + inner.data.len() + data_size <= 10240
    &&& inner.accounts.len() + 1 <= 128
}

/// The addresses that have to sign: the payer's, and those marked so.
pub open spec fn signer_keys(instructions: Seq<InstructionView>, payer: Seq<u8>) -> Set<Seq<u8>> {
    Set::new(
        |key: Seq<u8>|
            key == payer || exists|i: int, j: int|
                0 <= i < instructions.len() && 0 <= j < instructions[i].accounts.len()
                    && #[trigger] instructions[i].accounts[j].pubkey == key
                    && instructions[i].accounts[j].is_signer,
    )
}

/// The addresses that may be written to: the payer's, and those marked so.
pub open spec fn writable_keys(instructions: Seq<InstructionView>, payer: Seq<u8>) -> Set<Seq<u8>> {
    Set::new(
        |key: Seq<u8>|
            key == payer || exists|i: int, j: int|
                0 <= i < instructions.len() && 0 <= j < instructions[i].accounts.len()
                    && #[trigger] instructions[i].accounts[j].pubkey == key
                    && instructions[i].accounts[j].is_writable,
    )
}

/// All addresses that a transaction mentions.
pub open spec fn account_keys(instructions: Seq<InstructionView>, payer: Seq<u8>) -> Set<Seq<u8>> {
    Set::new(
        |key: Seq<u8>|
            key == payer || (exists|i: int|
                0 <= i < instructions.len() && #[trigger] instructions[i].program_id == key) || (
            exists|i: int, j: int|
                0 <= i < instructions.len() && 0 <= j < instructions[i].accounts.len()
                    && #[trigger] instructions[i].accounts[j].pubkey == key),
    )
}

/// The addresses that are neither signed for nor written to.
pub open spec fn read_only_keys(
    instructions: Seq<InstructionView>,
    payer: Seq<u8>,
) -> Set<Seq<u8>> {
    account_keys(instructions, payer).difference(signer_keys(instructions, payer)).difference(
        writable_keys(instructions, payer),
    )
}

/// A legacy transaction of these instructions can be compiled and signed by the
/// holders of the `signers` addresses: they are the ones that have to sign, and
/// every count fits its field.
pub open spec fn legacy_signable(
    instructions: Seq<InstructionView>,
    payer: Seq<u8>,
    signers: Seq<Seq<u8>>,
) -> bool {
    &&& signers.to_set() == signer_keys(instructions, payer)
    &&& signer_keys(instructions, payer).len() <= 255
    &&& read_only_keys(instructions, payer).len() <= 255
    &&& account_keys(instructions, payer).len() <= 65535
    &&& instructions.len() <= 65535
    &&& forall|i: int|
        0 <= i < instructions.len() ==> (#[trigger] instructions[i]).accounts.len() <= 65535
            && instructions[i].data.len() <= 65535
}

/// A V1 transaction of these instructions can be compiled and signed by the
/// holders of the `signers` addresses: they are the ones that have to sign, each
/// named once, and every index fits a byte.
pub open spec fn v1_signable(
    instructions: Seq<InstructionView>,
    payer: Seq<u8>,
    signers: Seq<Seq<u8>>,
) -> bool {
    &&& signers.to_set() == signer_keys(instructions, payer)
    &&& signers.no_duplicates()
    &&& signer_keys(instructions, payer).len() <= 255
    &&& read_only_keys(instructions, payer).len() <= 255
    &&& account_keys(instructions, payer).len() <= 256
}

/// The public key of an Ed25519 secret.
pub uninterp spec fn pubkey_of_secret(secret: Seq<u8>) -> Seq<u8>;

/// The wire form of a legacy transaction: the instructions, compiled for a
/// payer, signed with the secrets over a recent block's hash.
pub uninterp spec fn legacy_transaction_bytes(
    instructions: Seq<InstructionView>,
    payer: Seq<u8>,
    secrets: Seq<Seq<u8>>,
    blockhash: Seq<u8>,
) -> Seq<u8>;

/// The wire form of a V1 transaction: the instructions and the settings,
/// compiled for a payer, signed with the secrets over a recent block's hash.
pub uninterp spec fn v1_transaction_bytes(
    instructions: Seq<InstructionView>,
    payer: Seq<u8>,
    secrets: Seq<Seq<u8>>,
    blockhash: Seq<u8>,
    config: TransactionConfig,
) -> Seq<u8>;

/// The base-58 notation of an address.
pub uninterp spec fn address_notation(address: Seq<u8>) -> Seq<char>;

/// What reading a hash in base-58 notation gives: its 32 bytes, or the text of
/// the error.
pub uninterp spec fn hash_reading(text: Seq<char>) -> Result<Seq<u8>, Seq<char>>;

/// An Ed25519 keypair.
pub struct Keypair {
    secret: [u8; 32],
    pubkey: [u8; 32],
}

impl Keypair {
    /// The public key is that of the secret.
    #[verifier::type_invariant]
    spec fn consistent(self) -> bool {
        self.pubkey@ == pubkey_of_secret(self.secret@)
    }

    pub closed spec fn secret(self) -> Seq<u8> {
        self.secret@
    }

    pub closed spec fn address(self) -> Seq<u8> {
        self.pubkey@
    }

    /// A keypair with a fresh random secret.
    pub fn new() -> (keypair: Self)
        ensures
            keypair.address() == pubkey_of_secret(keypair.secret()),
    {
        Self::new_from_array(random_secret())
    }

    /// The keypair of a given secret.
    pub fn new_from_array(secret: [u8; 32]) -> (keypair: Self)
        ensures
            keypair.secret() == secret@,
            keypair.address() == pubkey_of_secret(secret@),
    {
        let pubkey: [u8; 32] = derive_pubkey(&secret);
        Keypair { secret, pubkey }
    }

    pub fn pubkey(&self) -> (pubkey: [u8; 32])
        ensures
            pubkey@ == self.address(),
            pubkey@ == pubkey_of_secret(self.secret()),
    {
        proof {
            use_type_invariant(self);
        }
        self.pubkey
    }
}

/// Whether two addresses or hashes are the same.
pub fn same_bytes(a: &[u8; 32], b: &[u8; 32]) -> (same: bool)
    ensures
        same == (*a == *b),
        same == (a@ == b@),
{
    let mut i: usize = 0;
    while i < 32
        invariant
            i <= 32,
            forall|j: int| 0 <= j < i ==> a@[j] == b@[j],
        decreases 32 - i,
    {
        if a[i] != b[i] {
            return false;
        }
        i += 1;
    }
    assert(a@ =~= b@);
    assert(*a =~= *b);
    true
}

/// Calls `solana_keypair::Keypair::new`, which draws 32 random bytes: nothing is
/// claimed of them.
#[verifier::external_body]
fn random_secret() -> (secret: [u8; 32]) {
    *SolanaKeypair::new().secret_bytes()
}

/// Calls `Signer::pubkey` on `solana_keypair::Keypair::new_from_array(secret)`:
/// the public key depends on the secret alone.
#[verifier::external_body]
fn derive_pubkey(secret: &[u8; 32]) -> (pubkey: [u8; 32])
    ensures
        pubkey@ == pubkey_of_secret(secret@),
{
    solana_signer::Signer::pubkey(&SolanaKeypair::new_from_array(*secret)).to_bytes()
}

/// Calls `solana_system_interface::instruction::transfer`: an instruction to the
/// system program with tag 2 and the amount, over the two accounts.
#[verifier::external_body]
pub(crate) fn transfer(from: &[u8; 32], to: &[u8; 32], lamports: u64) -> (r: Instruction)
    ensures
        r@ == transfer_view(from@, to@, lamports),
{
    let (from, to) = ((*from).into(), (*to).into());
    let i = solana_system_interface::instruction::transfer(&from, &to, lamports);
    let metas = i.accounts.iter().map(|a| AccountMeta {
        pubkey: a.pubkey.to_bytes(),
        is_signer: a.is_signer,
        is_writable: a.is_writable,
    });
    Instruction { program_id: i.program_id.to_bytes(), accounts: metas.collect(), data: i.data.clone() }
}

/// Calls `ComputeBudgetInstruction::set_compute_unit_limit`: tag 2 and the limit.
#[verifier::external_body]
pub(crate) fn set_compute_unit_limit(units: u32) -> (r: Instruction)
    ensures
        r@ == unit_limit_view(units),
{
    let i = solana_compute_budget_interface::ComputeBudgetInstruction::set_compute_unit_limit(units);
    let metas = i.accounts.iter().map(|a| AccountMeta {
        pubkey: a.pubkey.to_bytes(),
        is_signer: a.is_signer,
        is_writable: a.is_writable,
    });
    Instruction { program_id: i.program_id.to_bytes(), accounts: metas.collect(), data: i.data.clone() }
}

/// Calls `ComputeBudgetInstruction::set_compute_unit_price`: tag 3 and the price.
#[verifier::external_body]
pub(crate) fn set_compute_unit_price(micro_lamports: u64) -> (r: Instruction)
    ensures
        r@ == unit_price_view(micro_lamports),
{
    let i = solana_compute_budget_interface::ComputeBudgetInstruction::set_compute_unit_price(
        micro_lamports,
    );
    let metas = i.accounts.iter().map(|a| AccountMeta {
        pubkey: a.pubkey.to_bytes(),
        is_signer: a.is_signer,
        is_writable: a.is_writable,
    });
    Instruction { program_id: i.program_id.to_bytes(), accounts: metas.collect(), data: i.data.clone() }
}

/// Calls `ComputeBudgetInstruction::set_loaded_accounts_data_size_limit`: tag 4
/// and the limit.
#[verifier::external_body]
pub(crate) fn set_loaded_accounts_data_size_limit(bytes: u32) -> (r: Instruction)
    ensures
        r@ == loaded_data_limit_view(bytes),
{
    let i = solana_compute_budget_interface::ComputeBudgetInstruction::set_loaded_accounts_data_size_limit(
        bytes,
    );
    let metas = i.accounts.iter().map(|a| AccountMeta {
        pubkey: a.pubkey.to_bytes(),
        is_signer: a.is_signer,
        is_writable: a.is_writable,
    });
    Instruction { program_id: i.program_id.to_bytes(), accounts: metas.collect(), data: i.data.clone() }
}

/// Calls `spl_instruction_padding_interface::instruction::wrap_instruction`
/// without padding accounts. It fails exactly on an instruction that is too
/// large once wrapped.
#[verifier::external_body]
pub(crate) fn wrap_instruction(
    program_id: &[u8; 32],
    inner: &Instruction,
    data_size: u32,
) -> (r: Option<Instruction>)
    ensures
        r is Some <==> can_wrap(inner@, data_size),
        r matches Some(wrapped) ==> wrapped@ == wrapped_view(program_id@, inner@, data_size),
{
    let accounts = inner.accounts.iter().map(|a| SolanaMeta {
        pubkey: a.pubkey.into(),
        is_signer: a.is_signer,
        is_writable: a.is_writable,
    }).collect();
    let data = inner.data.clone();
    let inner = SolanaInstruction { program_id: inner.program_id.into(), accounts, data };
    let i = spl_instruction_padding_interface::instruction::wrap_instruction(
        (*program_id).into(), inner, vec![], data_size).ok()?;
    let accounts = i.accounts.iter().map(|a| AccountMeta {
        pubkey: a.pubkey.to_bytes(), is_signer: a.is_signer, is_writable: a.is_writable,
    }).collect();
    Some(Instruction { program_id: i.program_id.to_bytes(), accounts, data: i.data })
}

/// Reads the constant `spl_instruction_padding_interface::ID`.
#[verifier::external_body]
pub(crate) fn padding_program_id() -> (id: [u8; 32])
    ensures
        id@ == spl_padding_program(),
{
    spl_instruction_padding_interface::ID.to_bytes()
}

/// The addresses of a list of keypairs.
pub open spec fn addresses(keypairs: Seq<&Keypair>) -> Seq<Seq<u8>> {
    keypairs.map_values(|keypair: &Keypair| keypair.address())
}

/// The secrets of a list of keypairs.
pub open spec fn secrets(keypairs: Seq<&Keypair>) -> Seq<Seq<u8>> {
    keypairs.map_values(|keypair: &Keypair| keypair.secret())
}

/// Calls `solana_transaction::Transaction::new_signed_with_payer` and puts the
/// transaction, as a `VersionedTransaction`, into wire form with
/// `wincode::serialize`. Compilation is deterministic and so are Ed25519
/// signatures: the bytes depend on the arguments alone. The call panics where
/// the keypairs are not those of the required signers or a count overflows its
/// field.
#[verifier::external_body]
pub(crate) fn signed_legacy_transaction(
    instructions: &Vec<Instruction>,
    payer: &[u8; 32],
    signers: &[&Keypair],
    blockhash: &[u8; 32],
) -> (bytes: Vec<u8>)
    requires
        legacy_signable(instruction_views(instructions@), payer@, addresses(signers@)),
    ensures
        bytes@ == legacy_transaction_bytes(
            instruction_views(instructions@),
            payer@,
            secrets(signers@),
            blockhash@,
        ),
{
    let instructions: Vec<_> = instructions.iter().map(|i| SolanaInstruction {
        program_id: i.program_id.into(),
        accounts: i.accounts.iter().map(|a| SolanaMeta {
            pubkey: a.pubkey.into(), is_signer: a.is_signer, is_writable: a.is_writable
        }).collect(),
        data: i.data.clone()
    }).collect();
    let keys: Vec<_> = signers.iter().map(|k| SolanaKeypair::new_from_array(k.secret)).collect();
    let tx = Transaction::new_signed_with_payer(
        &instructions, Some(&(*payer).into()), &keys, (*blockhash).into());
    wincode::serialize(&VersionedTransaction::from(tx)).unwrap()
}

/// Calls `solana_message::v1::Message::try_compile_with_config`, signs the
/// message with `VersionedTransaction::try_new` and puts the transaction into
/// wire form with `wincode::serialize`. The bytes depend on the arguments alone.
/// Compilation fails where an index overflows a byte, signing where the keypairs
/// are not exactly those of the required signers.
#[verifier::external_body]
pub(crate) fn signed_v1_transaction(
    instructions: &Vec<Instruction>,
    payer: &[u8; 32],
    signers: &[&Keypair],
    blockhash: &[u8; 32],
    priority_fee: Option<u64>,
    compute_unit_limit: Option<u32>,
    loaded_accounts_data_size_limit: Option<u32>,
    heap_size: Option<u32>,
) -> (bytes: Vec<u8>)
    requires
        v1_signable(instruction_views(instructions@), payer@, addresses(signers@)),
    ensures
        bytes@ == v1_transaction_bytes(
            instruction_views(instructions@),
            payer@,
            secrets(signers@),
            blockhash@,
            (TransactionConfig {
                priority_fee,
                compute_unit_limit,
                loaded_accounts_data_size_limit,
                heap_size,
            }),
        ),
{
    let ixs: Vec<_> = instructions.iter().map(|i| SolanaInstruction {
        program_id: i.program_id.into(),
        accounts: i.accounts.iter().map(|a| SolanaMeta {
            pubkey: a.pubkey.into(), is_signer: a.is_signer, is_writable: a.is_writable
        }).collect(),
        data: i.data.clone()
    }).collect();
    let keys: Vec<_> = signers.iter().map(|k| SolanaKeypair::new_from_array(k.secret)).collect();
    let message = VersionedMessage::V1(V1Message::try_compile_with_config(
        &(*payer).into(), &ixs, (*blockhash).into(), V1Config {
            priority_fee, compute_unit_limit, loaded_accounts_data_size_limit, heap_size
        }).unwrap());
    wincode::serialize(&VersionedTransaction::try_new(message, &keys).unwrap()).unwrap()
}

/// Calls `to_string` on a `solana_pubkey::Pubkey`, whose `Display` writes the
/// address in base 58.
#[verifier::external_body]
pub(crate) fn address_text(address: &[u8; 32]) -> (text: String)
    ensures
        text@ == address_notation(address@),
{
    solana_pubkey::Pubkey::from(*address).to_string()
}

/// Calls `parse::<solana_hash::Hash>()`: base-58 decoding, a function of the text
/// alone. The error comes as its `Display` text.
#[verifier::external_body]
pub(crate) fn parse_hash(text: &str) -> (r: Result<[u8; 32], String>)
    ensures
        match (r, hash_reading(text@)) {
            (Ok(hash), Ok(expected)) => hash@ == expected,
            (Err(error), Err(expected)) => error@ == expected,
            _ => false,
        },
{
    text.parse::<solana_hash::Hash>().map(|hash| hash.to_bytes()).map_err(|error| error.to_string())
}

/// The number that bytes stand for, least significant byte first.
pub open spec fn le_value(bytes: Seq<u8>) -> nat
    decreases bytes.len(),
{
    if bytes.len() == 0 {
        0
    } else {
        bytes[0] as nat + 256 * le_value(bytes.drop_first())
    }
}

/// A number that fits its bytes is read back from them.
pub proof fn law_le_bytes_are_read_back(n: nat, width: nat)
    requires
        n < vstd::arithmetic::power::pow(256, width),
    ensures
        le_bytes(n, width).len() == width,
        le_value(le_bytes(n, width)) == n,
    decreases width,
{
    vstd::arithmetic::power::lemma_pow0(256);
    if width > 0 {
        let rest = (width - 1) as nat;
        let bytes = le_bytes(n, width);
        assert(vstd::arithmetic::power::pow(256, width) == 256 * vstd::arithmetic::power::pow(
            256,
            rest,
        )) by {
            reveal(vstd::arithmetic::power::pow);
        }
        assert(n / 256 < vstd::arithmetic::power::pow(256, rest));
        law_le_bytes_are_read_back(n / 256, rest);
        assert(bytes.drop_first() =~= le_bytes(n / 256, rest));
        assert(bytes[0] == (n % 256) as u8);
    }
}

proof fn lemma_widths()
    ensures
        vstd::arithmetic::power::pow(256, 1) == 0x100,
        vstd::arithmetic::power::pow(256, 4) == 0x1_0000_0000,
        vstd::arithmetic::power::pow(256, 8) == 0x1_0000_0000_0000_0000,
{
    reveal_with_fuel(vstd::arithmetic::power::pow, 9);
}

/// A transfer names its two accounts, of which the paying one signs, and whoever
/// reads its data finds the amount.
pub proof fn law_transfer_moves_the_amount(from: Seq<u8>, to: Seq<u8>, lamports: u64)
    ensures
        ({
            let transfer = transfer_view(from, to, lamports);
            &&& transfer.program_id.len() == 32
            &&& forall|i: int| 0 <= i < 32 ==> #[trigger] transfer.program_id[i] == 0
            &&& transfer.accounts.len() == 2
            &&& transfer.accounts[0].pubkey == from
            &&& transfer.accounts[0].is_signer && transfer.accounts[0].is_writable
            &&& transfer.accounts[1].pubkey == to
            &&& !transfer.accounts[1].is_signer && transfer.accounts[1].is_writable
            &&& transfer.data.len() == 12
            &&& le_value(transfer.data.take(4)) == 2
            &&& le_value(transfer.data.skip(4)) == lamports
        }),
{
    lemma_widths();
    law_le_bytes_are_read_back(2, 4);
    law_le_bytes_are_read_back(lamports as nat, 8);
    let transfer = transfer_view(from, to, lamports);
    assert(transfer.data.take(4) =~= le_bytes(2, 4));
    assert(transfer.data.skip(4) =~= le_bytes(lamports as nat, 8));
}

/// Whoever reads the compute-budget instructions finds what they were made of: a
/// tag, and the number behind it.
pub proof fn law_budget_instructions_carry_their_numbers(units: u32, price: u64, bytes: u32)
    ensures
        ({
            let limit = unit_limit_view(units);
            let priced = unit_price_view(price);
            let loaded = loaded_data_limit_view(bytes);
            &&& limit.data[0] == 2 && le_value(limit.data.drop_first()) == units
            &&& priced.data[0] == 3 && le_value(priced.data.drop_first()) == price
            &&& loaded.data[0] == 4 && le_value(loaded.data.drop_first()) == bytes
            &&& limit.data.len() == 5 && priced.data.len() == 9 && loaded.data.len() == 5
            &&& limit.accounts.len() == 0 && priced.accounts.len() == 0 && loaded.accounts.len() == 0
            &&& limit.program_id == priced.program_id && priced.program_id == loaded.program_id
        }),
{
    lemma_widths();
    law_le_bytes_are_read_back(units as nat, 4);
    law_le_bytes_are_read_back(price as nat, 8);
    law_le_bytes_are_read_back(bytes as nat, 4);
    assert(unit_limit_view(units).data.drop_first() =~= le_bytes(units as nat, 4));
    assert(unit_price_view(price).data.drop_first() =~= le_bytes(price as nat, 8));
    assert(loaded_data_limit_view(bytes).data.drop_first() =~= le_bytes(bytes as nat, 4));
}

/// A wrapped instruction still holds what was wrapped: its accounts, behind them its
/// program, and, behind a tag and the two lengths, its data. What follows is as
/// much padding as was asked for.
pub proof fn law_wrapping_keeps_the_instruction(
    program_id: Seq<u8>,
    inner: InstructionView,
    data_size: u32,
)
    requires
        inner.accounts.len() < 0x1_0000_0000,
        inner.data.len() < 0x1_0000_0000,
    ensures
        ({
            let wrapped = wrapped_view(program_id, inner, data_size);
            &&& wrapped.program_id == program_id
            &&& wrapped.accounts.drop_last() == inner.accounts
            &&& wrapped.accounts.last().pubkey == inner.program_id
            &&& !wrapped.accounts.last().is_signer && !wrapped.accounts.last().is_writable
            &&& wrapped.data.len() == 9 + inner.data.len() + data_size
            &&& wrapped.data[0] == 1
            &&& le_value(wrapped.data.subrange(1, 5)) == inner.accounts.len()
            &&& le_value(wrapped.data.subrange(5, 9)) == inner.data.len()
            &&& wrapped.data.subrange(9, 9 + inner.data.len() as int) == inner.data
        }),
{
    lemma_widths();
    law_le_bytes_are_read_back(inner.accounts.len(), 4);
    law_le_bytes_are_read_back(inner.data.len(), 4);
    let wrapped = wrapped_view(program_id, inner, data_size);
    assert(wrapped.accounts.drop_last() =~= inner.accounts);
    assert(wrapped.data.subrange(1, 5) =~= le_bytes(inner.accounts.len(), 4));
    assert(wrapped.data.subrange(5, 9) =~= le_bytes(inner.data.len(), 4));
    assert(wrapped.data.subrange(9, 9 + inner.data.len() as int) =~= inner.data);
}

} // verus!
