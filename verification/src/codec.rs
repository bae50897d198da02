//! Decoding of raw ledger account bytes into a tagged account record:
//! a plain (externally visible) account, a contract-code account, or an
//! uninitialized record.

use vstd::prelude::*;

use crate::types::{be_nat, DecodeError, EthAddress, NativeId};

verus! {

/// A decoded ledger account record.
pub enum AccountRecord {
    /// A plain account: the Ethereum address it mirrors, its transaction
    /// count, and the native id of its linked code account (the all-zero
    /// sentinel when it has none).
    PlainAccount { address: EthAddress, trx_count: u64, code_account: NativeId },
    /// A contract-code account: its owning native id and the stored code.
    ContractCode { owner: NativeId, code: Vec<u8> },
    /// A record not yet initialized to either shape.
    Uninitialized,
}

impl AccountRecord {
    pub open spec fn wf(&self) -> bool {
        match self {
            AccountRecord::PlainAccount { address, code_account, .. } => address.wf()
                && code_account.wf(),
            AccountRecord::ContractCode { owner, .. } => owner.wf(),
            AccountRecord::Uninitialized => true,
        }
    }
}

/// Tag byte of a plain account record.
pub const TAG_PLAIN: u8 = 1;

/// Tag byte of a contract-code record.
pub const TAG_CONTRACT: u8 = 2;

/// Tag byte of an uninitialized record.
pub const TAG_UNINITIALIZED: u8 = 0;

/// Byte layout of a plain account record: tag, 20-byte address,
/// 8-byte big-endian transaction count, 32-byte linked code account id.
pub open spec fn is_plain_layout(s: Seq<u8>) -> bool {
    s.len() == 61 && s[0] == TAG_PLAIN
}

/// Byte layout of a contract-code record: tag, 32-byte owner id,
/// 4-byte big-endian code size, then exactly that many code bytes.
pub open spec fn is_contract_layout(s: Seq<u8>) -> bool {
    s.len() >= 37 && s[0] == TAG_CONTRACT && be_nat(s.subrange(33, 37)) == s.len() - 37
}

/// Byte layout of an uninitialized record: the tag byte alone.
pub open spec fn is_uninitialized_layout(s: Seq<u8>) -> bool {
    s.len() == 1 && s[0] == TAG_UNINITIALIZED
}

/// Decode raw ledger account bytes into a tagged record.
///
/// Exactly the three layouts above are accepted; anything else is
/// `Malformed`.
pub fn decode_account(data: &Vec<u8>) -> (r: Result<AccountRecord, DecodeError>)
    ensures
        (r matches Ok(rec) ==> rec.wf()),
        is_plain_layout(data@) <==> (r matches Ok(rec) && (rec is PlainAccount)),
        r matches Ok(rec) ==> (rec matches AccountRecord::PlainAccount {
            address,
            trx_count,
            code_account,
        } ==> address@ == data@.subrange(1, 21) && trx_count == be_nat(data@.subrange(21, 29))
            && code_account@ == data@.subrange(29, 61)),
        is_contract_layout(data@) <==> (r matches Ok(rec) && (rec is ContractCode)),
        r matches Ok(rec) ==> (rec matches AccountRecord::ContractCode { owner, code } ==> owner@
            == data@.subrange(1, 33) && code@ == data@.subrange(37, data@.len() as int)),
        is_uninitialized_layout(data@) <==> r matches Ok(AccountRecord::Uninitialized),
        r is Err <==> !(is_plain_layout(data@) || is_contract_layout(data@)
            || is_uninitialized_layout(data@)),
        r is Err ==> r == Err::<AccountRecord, DecodeError>(DecodeError::Malformed),
{
    if data.len() == 0 {
        return Err(DecodeError::Malformed);
    }
    let tag = data[0];
    if tag == TAG_PLAIN {
        if data.len() != 61 {
            return Err(DecodeError::Malformed);
        }
        let address = EthAddress::new(crate::types::copy_range(data, 1, 21));
        let trx_count = crate::types::u64_from_be(data, 21, 29);
        let code_account = NativeId::new(crate::types::copy_range(data, 29, 61));
        Ok(AccountRecord::PlainAccount { address, trx_count, code_account })
    } else if tag == TAG_CONTRACT {
        if data.len() < 37 {
            return Err(DecodeError::Malformed);
        }
        let size = crate::types::u64_from_be(data, 33, 37);
        if size != (data.len() - 37) as u64 {
            return Err(DecodeError::Malformed);
        }
        let owner = NativeId::new(crate::types::copy_range(data, 1, 33));
        let code = crate::types::copy_range(data, 37, data.len());
        Ok(AccountRecord::ContractCode { owner, code })
    } else if tag == TAG_UNINITIALIZED {
        if data.len() != 1 {
            return Err(DecodeError::Malformed);
        }
        Ok(AccountRecord::Uninitialized)
    } else {
        Err(DecodeError::Malformed)
    }
}

} // verus!
