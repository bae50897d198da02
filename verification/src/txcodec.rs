//! Decoding of the canonical recursive byte encoding of an unsigned
//! Ethereum transaction: a nine-element list of byte strings, of which the
//! first seven carry the transaction fields.

use vstd::prelude::*;

use crate::types::{
    be_nat, canonical_scalar, copy_range, u64_from_be, DecodeError, EthAddress, U256,
};

verus! {

/// Mathematical shape of a decoded transaction.
pub struct SpecTx {
    pub nonce: nat,
    pub gas_price: Seq<u8>,
    pub gas_limit: Seq<u8>,
    pub to: Option<Seq<u8>>,
    pub value: Seq<u8>,
    pub call_data: Seq<u8>,
    pub chain_id: Seq<u8>,
}

/// The item whose header starts at `pos`: `(is_list, payload_start,
/// payload_len)`, or `None` where no canonical item starts there.
pub open spec fn header_at(s: Seq<u8>, pos: int) -> Option<(bool, int, int)> {
    if !(0 <= pos < s.len()) {
        None
    } else {
        let b = s[pos];
        if b < 0x80 {
            Some((false, pos, 1))
        } else if b <= 0xb7 {
            let l = b - 0x80;
            if pos + 1 + l <= s.len() && (l == 1 ==> s[pos + 1] >= 0x80) {
                Some((false, pos + 1, l as int))
            } else {
                None
            }
        } else if b <= 0xbf {
            let ll = b - 0xb7;
            if pos + 1 + ll <= s.len() && s[pos + 1] != 0 {
                let l = be_nat(s.subrange(pos + 1, pos + 1 + ll)) as int;
                if l > 55 && pos + 1 + ll + l <= s.len() {
                    Some((false, pos + 1 + ll, l))
                } else {
                    None
                }
            } else {
                None
            }
        } else if b <= 0xf7 {
            let l = b - 0xc0;
            if pos + 1 + l <= s.len() {
                Some((true, pos + 1, l as int))
            } else {
                None
            }
        } else {
            let ll = b - 0xf7;
            if pos + 1 + ll <= s.len() && s[pos + 1] != 0 {
                let l = be_nat(s.subrange(pos + 1, pos + 1 + ll)) as int;
                if l > 55 && pos + 1 + ll + l <= s.len() {
                    Some((true, pos + 1 + ll, l))
                } else {
                    None
                }
            } else {
                None
            }
        }
    }
}

/// The items whose headers tile `[pos, end)` exactly, in order.
pub open spec fn items_from(s: Seq<u8>, pos: int, end: int) -> Option<Seq<(bool, int, int)>>
    decreases end - pos,
{
    if pos >= end {
        if pos == end {
            Some(Seq::empty())
        } else {
            None
        }
    } else {
        match header_at(s, pos) {
            None => None,
            Some(h) => {
                let iend = h.1 + h.2;
                if iend <= end {
                    match items_from(s, iend, end) {
                        None => None,
                        Some(rest) => Some(seq![h] + rest),
                    }
                } else {
                    None
                }
            },
        }
    }
}

/// The payload bytes of an item.
pub open spec fn item_bytes(s: Seq<u8>, it: (bool, int, int)) -> Seq<u8> {
    s.subrange(it.1, it.1 + it.2)
}

/// A scalar field: a byte string of at most `maxlen` bytes with no
/// leading zero.
pub open spec fn spec_scalar_field(s: Seq<u8>, it: (bool, int, int), maxlen: int) -> Result<
    Seq<u8>,
    DecodeError,
> {
    if it.0 {
        Err(DecodeError::ExpectedData)
    } else if it.2 > maxlen || (it.2 > 0 && s[it.1] == 0) {
        Err(DecodeError::Malformed)
    } else {
        Ok(item_bytes(s, it))
    }
}

/// The "to" field: empty data means a creation transaction, twenty bytes
/// name the callee, and a list is refused as `ExpectedData`.
pub open spec fn spec_to_field(s: Seq<u8>, it: (bool, int, int)) -> Result<
    Option<Seq<u8>>,
    DecodeError,
> {
    if it.0 {
        Err(DecodeError::ExpectedData)
    } else if it.2 == 0 {
        Ok(None)
    } else if it.2 == 20 {
        Ok(Some(item_bytes(s, it)))
    } else {
        Err(DecodeError::Malformed)
    }
}

/// A free-form byte-string field.
pub open spec fn spec_data_field(s: Seq<u8>, it: (bool, int, int)) -> Result<
    Seq<u8>,
    DecodeError,
> {
    if it.0 {
        Err(DecodeError::ExpectedData)
    } else {
        Ok(item_bytes(s, it))
    }
}

/// What decoding an unsigned transaction from raw bytes yields.
pub open spec fn spec_decode_tx(s: Seq<u8>) -> Result<SpecTx, DecodeError> {
    match header_at(s, 0) {
        None => Err(DecodeError::Malformed),
        Some(top) => if !top.0 || top.1 + top.2 != s.len() {
            Err(DecodeError::Malformed)
        } else {
            match items_from(s, top.1, top.1 + top.2) {
                None => Err(DecodeError::Malformed),
                Some(items) => if items.len() != 9 {
                    Err(DecodeError::WrongFieldCount)
                } else {
                    match spec_scalar_field(s, items[0], 8) {
                        Err(e) => Err(e),
                        Ok(nonce_b) => match spec_scalar_field(s, items[1], 32) {
                            Err(e) => Err(e),
                            Ok(gas_price) => match spec_scalar_field(s, items[2], 32) {
                                Err(e) => Err(e),
                                Ok(gas_limit) => match spec_to_field(s, items[3]) {
                                    Err(e) => Err(e),
                                    Ok(to) => match spec_scalar_field(s, items[4], 32) {
                                        Err(e) => Err(e),
                                        Ok(value) => match spec_data_field(s, items[5]) {
                                            Err(e) => Err(e),
                                            Ok(call_data) => match spec_scalar_field(
                                                s,
                                                items[6],
                                                32,
                                            ) {
                                                Err(e) => Err(e),
                                                Ok(chain_id) => Ok(
                                                    SpecTx {
                                                        nonce: be_nat(nonce_b),
                                                        gas_price,
                                                        gas_limit,
                                                        to,
                                                        value,
                                                        call_data,
                                                        chain_id,
                                                    },
                                                ),
                                            },
                                        },
                                    },
                                },
                            },
                        },
                    }
                },
            }
        },
    }
}

/// An unsigned Ethereum transaction.
pub struct UnsignedTransaction {
    pub nonce: u64,
    pub gas_price: U256,
    pub gas_limit: U256,
    pub to: Option<EthAddress>,
    pub value: U256,
    pub call_data: Vec<u8>,
    pub chain_id: U256,
}

impl UnsignedTransaction {
    pub open spec fn wf(&self) -> bool {
        &&& self.gas_price.wf()
        &&& self.gas_limit.wf()
        &&& self.value.wf()
        &&& self.chain_id.wf()
        &&& (self.to matches Some(a) ==> a.wf())
    }
}

impl View for UnsignedTransaction {
    type V = SpecTx;

    open spec fn view(&self) -> SpecTx {
        SpecTx {
            nonce: self.nonce as nat,
            gas_price: self.gas_price@,
            gas_limit: self.gas_limit@,
            to: match self.to {
                Some(a) => Some(a@),
                None => None,
            },
            value: self.value@,
            call_data: self.call_data@,
            chain_id: self.chain_id@,
        }
    }
}

/// The view of a decode result.
pub open spec fn decode_result_view(r: Result<UnsignedTransaction, DecodeError>) -> Result<
    SpecTx,
    DecodeError,
> {
    match r {
        Ok(tx) => Ok(tx@),
        Err(e) => Err(e),
    }
}

/// Read the item header at `pos`.
fn read_header(buf: &Vec<u8>, pos: usize) -> (r: Result<(bool, usize, usize), DecodeError>)
    ensures
        r matches Ok(h) ==> header_at(buf@, pos as int) == Some((h.0, h.1 as int, h.2 as int))
            && pos <= h.1 && pos < h.1 + h.2 <= buf@.len(),
        r is Err <==> header_at(buf@, pos as int) is None,
        r is Err ==> r == Err::<(bool, usize, usize), DecodeError>(DecodeError::Malformed),
{
    if pos >= buf.len() {
        return Err(DecodeError::Malformed);
    }
    let b = buf[pos];
    let remaining = buf.len() - pos - 1;
    if b < 0x80 {
        Ok((false, pos, 1))
    } else if b <= 0xb7 {
        let l = (b - 0x80) as usize;
        if l <= remaining && (l != 1 || buf[pos + 1] >= 0x80) {
            Ok((false, pos + 1, l))
        } else {
            Err(DecodeError::Malformed)
        }
    } else {
        let is_list = b >= 0xc0;
        if b >= 0xc0 && b <= 0xf7 {
            let l = (b - 0xc0) as usize;
            if l <= remaining {
                return Ok((true, pos + 1, l));
            } else {
                return Err(DecodeError::Malformed);
            }
        }
        let ll = if is_list {
            (b - 0xf7) as usize
        } else {
            (b - 0xb7) as usize
        };
        if ll > remaining {
            return Err(DecodeError::Malformed);
        }
        if buf[pos + 1] == 0 {
            return Err(DecodeError::Malformed);
        }
        let lval = u64_from_be(buf, pos + 1, pos + 1 + ll);
        if lval <= 55 {
            return Err(DecodeError::Malformed);
        }
        if lval > (remaining - ll) as u64 {
            return Err(DecodeError::Malformed);
        }
        Ok((is_list, pos + 1 + ll, lval as usize))
    }
}

/// Copy a scalar field out of the buffer.
fn scalar_field(buf: &Vec<u8>, it: (bool, usize, usize), maxlen: usize) -> (r: Result<
    Vec<u8>,
    DecodeError,
>)
    requires
        it.1 + it.2 <= buf@.len(),
    ensures
        (match r {
            Ok(v) => spec_scalar_field(buf@, (it.0, it.1 as int, it.2 as int), maxlen as int)
                == Ok::<Seq<u8>, DecodeError>(v@),
            Err(e) => spec_scalar_field(buf@, (it.0, it.1 as int, it.2 as int), maxlen as int)
                == Err::<Seq<u8>, DecodeError>(e),
        }),
        r matches Ok(v) ==> v@.len() <= maxlen && canonical_scalar(v@) == (maxlen <= 32
            || v@.len() <= 32),
{
    let n = buf.len();
    if it.0 {
        return Err(DecodeError::ExpectedData);
    }
    if it.2 > maxlen || (it.2 > 0 && buf[it.1] == 0) {
        return Err(DecodeError::Malformed);
    }
    proof {
        assert(it.1 + it.2 <= n);
    }
    let v = copy_range(buf, it.1, it.1 + it.2);
    proof {
        assert(v@ =~= item_bytes(buf@, (it.0, it.1 as int, it.2 as int)));
    }
    Ok(v)
}

/// Decode an unsigned transaction from its canonical byte encoding.
///
/// The input must be a nine-element list consuming the whole buffer; any
/// other arity is `WrongFieldCount`, a list where a byte string is expected
/// is `ExpectedData`, and every other defect is `Malformed`.
#[verifier::loop_isolation(false)]
pub fn decode_transaction(raw: &Vec<u8>) -> (r: Result<UnsignedTransaction, DecodeError>)
    ensures
        decode_result_view(r) == spec_decode_tx(raw@),
        r matches Ok(tx) ==> tx.wf(),
{
    let top = match read_header(raw, 0) {
        Ok(h) => h,
        Err(_) => {
            return Err(DecodeError::Malformed);
        },
    };
    if !top.0 {
        return Err(DecodeError::Malformed);
    }
    let end = raw.len();
    if top.2 != end - top.1 {
        return Err(DecodeError::Malformed);
    }
    let ghost gstart: int = top.1 as int;
    let ghost gend: int = end as int;
    let mut items: Vec<(bool, usize, usize)> = Vec::new();
    let ghost mut gitems: Seq<(bool, int, int)> = Seq::empty();
    let mut pos: usize = top.1;
    while pos < end
        invariant
            top.1 <= pos <= end,
            gitems.len() == items@.len(),
            forall|k: int|
                0 <= k < items@.len() ==> gitems[k] == ((#[trigger] items@[k]).0,
                items@[k].1 as int, items@[k].2 as int),
            (items_from(raw@, gstart, gend) is Some <==> items_from(raw@, pos as int, gend)
                is Some),
            (items_from(raw@, pos as int, gend) matches Some(rest) ==> items_from(
                raw@,
                gstart,
                gend,
            ) == Some(gitems + rest)),
            forall|k: int|
                0 <= k < items@.len() ==> (#[trigger] items@[k]).1 + items@[k].2 <= gend,
        decreases gend - pos,
    {
        let h = match read_header(raw, pos) {
            Ok(h) => h,
            Err(_) => {
                return Err(DecodeError::Malformed);
            },
        };
        let ghost old_gitems = gitems;
        let ghost gh = (h.0, h.1 as int, h.2 as int);
        items.push(h);
        proof {
            gitems = gitems.push(gh);
            let iend = gh.1 + gh.2;
            assert(items_from(raw@, pos as int, gend) == (match items_from(raw@, iend, gend) {
                None => None::<Seq<(bool, int, int)>>,
                Some(rest) => Some(seq![gh] + rest),
            }));
            if items_from(raw@, iend, gend) is Some {
                let rest = items_from(raw@, iend, gend)->Some_0;
                assert(old_gitems + (seq![gh] + rest) =~= gitems + rest);
            }
        }
        pos = h.1 + h.2;
    }
    proof {
        assert(items_from(raw@, gend, gend) == Some(Seq::<(bool, int, int)>::empty()));
        assert(gitems + Seq::<(bool, int, int)>::empty() =~= gitems);
        assert(items_from(raw@, gstart, gend) == Some(gitems));
    }
    if items.len() != 9 {
        return Err(DecodeError::WrongFieldCount);
    }
    let nonce_b = match scalar_field(raw, items[0], 8) {
        Ok(v) => v,
        Err(e) => {
            return Err(e);
        },
    };
    let gas_price_b = match scalar_field(raw, items[1], 32) {
        Ok(v) => v,
        Err(e) => {
            return Err(e);
        },
    };
    let gas_limit_b = match scalar_field(raw, items[2], 32) {
        Ok(v) => v,
        Err(e) => {
            return Err(e);
        },
    };
    let it3 = items[3];
    let to: Option<EthAddress> = if it3.0 {
        return Err(DecodeError::ExpectedData);
    } else if it3.2 == 0 {
        None
    } else if it3.2 == 20 {
        let v = copy_range(raw, it3.1, it3.1 + it3.2);
        Some(EthAddress::new(v))
    } else {
        return Err(DecodeError::Malformed);
    };
    let value_b = match scalar_field(raw, items[4], 32) {
        Ok(v) => v,
        Err(e) => {
            return Err(e);
        },
    };
    let it5 = items[5];
    if it5.0 {
        return Err(DecodeError::ExpectedData);
    }
    let call_data = copy_range(raw, it5.1, it5.1 + it5.2);
    let chain_id_b = match scalar_field(raw, items[6], 32) {
        Ok(v) => v,
        Err(e) => {
            return Err(e);
        },
    };
    let nonce = u64_from_be(&nonce_b, 0, nonce_b.len());
    proof {
        assert(nonce_b@.subrange(0, nonce_b@.len() as int) =~= nonce_b@);
        assert(call_data@ =~= item_bytes(raw@, gitems[5]));
    }
    let tx = UnsignedTransaction {
        nonce,
        gas_price: U256::from_be(gas_price_b),
        gas_limit: U256::from_be(gas_limit_b),
        to,
        value: U256::from_be(value_b),
        call_data,
        chain_id: U256::from_be(chain_id_b),
    };
    proof {
        if tx.to is Some {
            assert(tx.to->Some_0@ =~= item_bytes(raw@, gitems[3]));
        }
    }
    Ok(tx)
}

} // verus!
