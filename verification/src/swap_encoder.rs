//! Venue encoders, which pack one swap into the bytes that a venue family's
//! executor contract reads, and the registry that finds them by family.

use vstd::prelude::*;
use vstd::hash_map::StringHashMap;
use crate::bytes::{append, append_left_padded, bytes_eq, left_padded, ADDRESS_LEN};
use crate::errors::{EncodingError, ErrorView};
use crate::models::{EncodingContext, StaticAttribute, Swap};

verus! {

/// Width in bytes of a function selector.
pub const SELECTOR_LEN: usize = 4;

/// Width in bytes of a pool's fee tier.
pub const FEE_LEN: usize = 3;

/// The byte layouts that executors read.
#[derive(Clone, Copy, Debug, PartialEq, Eq, Structural)]
pub enum PackingFormat {
    /// Token in, pool, receiver, direction.
    Pair,
    /// Token in, token out, fee tier, receiver, pool, direction.
    FeeTier,
}

/// The encoder of one venue family.
#[derive(Debug)]
pub struct SwapEncoder {
    pub executor_address: Vec<u8>,
    pub selector: Vec<u8>,
    pub format: PackingFormat,
}

/// One line of the executor table: a venue family and its encoder.
#[derive(Debug)]
pub struct ExecutorEntry {
    pub protocol_system: String,
    pub encoder: SwapEncoder,
}

/// Finds venue encoders by venue family.
pub struct SwapEncoderRegistry {
    encoders: StringHashMap<SwapEncoder>,
}

/// Some token of the list holds the bytes `token`.
pub open spec fn holds_token(tokens: Seq<Vec<u8>>, token: Seq<u8>) -> bool {
    exists|i: int| 0 <= i < tokens.len() && (#[trigger] tokens[i])@ == token
}

/// The value of the first attribute from position `from` on that is named `name`.
pub open spec fn attribute_from(attributes: Seq<StaticAttribute>, name: Seq<char>, from: int) -> Option<Seq<u8>>
    decreases attributes.len() - from,
{
    if from < 0 || from >= attributes.len() {
        None
    } else if attributes[from].name@ == name {
        Some(attributes[from].value@)
    } else {
        attribute_from(attributes, name, from + 1)
    }
}

/// The fee tier that the swap's venue states, if it states one.
pub open spec fn fee_of(swap: &Swap) -> Option<Seq<u8>> {
    attribute_from(swap.component.static_attributes@, "fee"@, 0)
}

/// The swap can be packed in `format`: its addresses are whole, its tokens
/// belong to the venue, the venue names its pool and, where the layout holds a
/// fee tier, states one that fits.
pub open spec fn packable(format: PackingFormat, swap: &Swap, receiver: Seq<u8>) -> bool {
    &&& swap.token_in@.len() == ADDRESS_LEN
    &&& swap.token_out@.len() == ADDRESS_LEN
    &&& receiver.len() == ADDRESS_LEN
    &&& holds_token(swap.component.tokens@, swap.token_in@)
    &&& holds_token(swap.component.tokens@, swap.token_out@)
    &&& swap.component.contract_ids@.len() > 0
    &&& swap.component.contract_ids@[0]@.len() == ADDRESS_LEN
    &&& (format == PackingFormat::FeeTier ==> (fee_of(swap) matches Some(fee) && fee.len() <= FEE_LEN))
}

/// One byte that tells whether the swap goes from the venue's first token.
pub open spec fn direction(swap: &Swap) -> Seq<u8> {
    if swap.component.tokens@[0]@ == swap.token_in@ {
        seq![1u8]
    } else {
        seq![0u8]
    }
}

/// The bytes of a packable swap in `format`.
pub open spec fn packed(format: PackingFormat, swap: &Swap, receiver: Seq<u8>) -> Seq<u8> {
    let pool = swap.component.contract_ids@[0]@;
    match format {
        PackingFormat::Pair => swap.token_in@ + pool + receiver + direction(swap),
        PackingFormat::FeeTier => swap.token_in@ + swap.token_out@ + left_padded(
            fee_of(swap).unwrap(),
            FEE_LEN as nat,
        ) + receiver + pool + direction(swap),
    }
}

/// Whether `tokens` holds `token`.
fn find_token(tokens: &Vec<Vec<u8>>, token: &Vec<u8>) -> (found: bool)
    ensures
        found == holds_token(tokens@, token@),
{
    let mut i: usize = 0;
    while i < tokens.len()
        invariant
            i <= tokens@.len(),
            forall|k: int| 0 <= k < i ==> (#[trigger] tokens@[k])@ != token@,
        decreases tokens@.len() - i,
    {
        if bytes_eq(&tokens[i], token) {
            return true;
        }
        i += 1;
    }
    false
}

/// Looks up the first attribute named `name`.
fn find_attribute<'a>(attributes: &'a Vec<StaticAttribute>, name: &String) -> (value: Option<&'a Vec<u8>>)
    ensures
        match value {
            Some(v) => attribute_from(attributes@, name@, 0) == Some(v@),
            None => attribute_from(attributes@, name@, 0).is_none(),
        },
{
    let mut i: usize = 0;
    while i < attributes.len()
        invariant
            i <= attributes@.len(),
            attribute_from(attributes@, name@, 0) == attribute_from(attributes@, name@, i as int),
        decreases attributes@.len() - i,
    {
        if attributes[i].name == *name {
            return Some(&attributes[i].value);
        }
        i += 1;
    }
    None
}

impl PackingFormat {
    /// The layout that a tag of the executor table names, if it names one.
    pub open spec fn of_tag(tag: Seq<char>) -> Option<PackingFormat> {
        if tag == "pair"@ {
            Some(PackingFormat::Pair)
        } else if tag == "fee_tier"@ {
            Some(PackingFormat::FeeTier)
        } else {
            None
        }
    }

    /// Reads a layout from its tag in the executor table.
    pub fn from_tag(tag: &String) -> (format: Option<PackingFormat>)
        ensures
            format == Self::of_tag(tag@),
    {
        if *tag == "pair".to_string() {
            Some(PackingFormat::Pair)
        } else if *tag == "fee_tier".to_string() {
            Some(PackingFormat::FeeTier)
        } else {
            None
        }
    }
}

impl SwapEncoder {
    /// The executor's address and the selector have their widths.
    pub open spec fn wf(&self) -> bool {
        &&& self.executor_address@.len() == ADDRESS_LEN
        &&& self.selector@.len() == SELECTOR_LEN
    }

    /// Packs one swap for this venue family's executor.
    pub fn encode_swap(&self, swap: &Swap, context: &EncodingContext) -> (block: Result<Vec<u8>, EncodingError>)
        ensures
            match block {
                Ok(b) => packable(self.format, swap, context.receiver@) && b@ == packed(
                    self.format,
                    swap,
                    context.receiver@,
                ),
                Err(e) => !packable(self.format, swap, context.receiver@) && e@
                    == ErrorView::EncodingFailed,
            },
    {
        if swap.token_in.len() != ADDRESS_LEN || swap.token_out.len() != ADDRESS_LEN
            || context.receiver.len() != ADDRESS_LEN {
            return Err(EncodingError::EncodingFailed);
        }
        if !find_token(&swap.component.tokens, &swap.token_in) || !find_token(
            &swap.component.tokens,
            &swap.token_out,
        ) {
            return Err(EncodingError::EncodingFailed);
        }
        if swap.component.contract_ids.len() == 0 || swap.component.contract_ids[0].len()
            != ADDRESS_LEN {
            return Err(EncodingError::EncodingFailed);
        }
        let pool = &swap.component.contract_ids[0];
        let forward: u8 = if bytes_eq(&swap.component.tokens[0], &swap.token_in) {
            1
        } else {
            0
        };
        let mut out: Vec<u8> = Vec::new();
        match self.format {
            PackingFormat::Pair => {
                append(&mut out, &swap.token_in);
                append(&mut out, pool);
                append(&mut out, &context.receiver);
                out.push(forward);
                proof {
                    let d = direction(swap);
                    assert(out@ == swap.token_in@ + pool@ + context.receiver@ + d);
                }
            },
            PackingFormat::FeeTier => {
                let name = "fee".to_string();
                let fee = match find_attribute(&swap.component.static_attributes, &name) {
                    Some(v) => v,
                    None => {
                        return Err(EncodingError::EncodingFailed);
                    },
                };
                if fee.len() > FEE_LEN {
                    return Err(EncodingError::EncodingFailed);
                }
                append(&mut out, &swap.token_in);
                append(&mut out, &swap.token_out);
                append_left_padded(&mut out, fee, FEE_LEN);
                append(&mut out, &context.receiver);
                append(&mut out, pool);
                out.push(forward);
                proof {
                    let d = direction(swap);
                    assert(out@ == swap.token_in@ + swap.token_out@ + left_padded(
                        fee@,
                        FEE_LEN as nat,
                    ) + context.receiver@ + pool@ + d);
                }
            },
        }
        Ok(out)
    }
}

/// Every encoder of the entries has whole addresses and selectors.
pub open spec fn entries_wf(entries: Seq<ExecutorEntry>) -> bool {
    forall|i: int| 0 <= i < entries.len() ==> (#[trigger] entries[i]).encoder.wf()
}

/// No two entries name the same venue family.
pub open spec fn entries_distinct(entries: Seq<ExecutorEntry>) -> bool {
    forall|i: int, j: int|
        0 <= i < j < entries.len() ==> (#[trigger] entries[i]).protocol_system@
            != (#[trigger] entries[j]).protocol_system@
}

/// The table that the entries from position `from` on spell out.
pub open spec fn table_from(entries: Seq<ExecutorEntry>, from: int) -> Map<Seq<char>, SwapEncoder>
    decreases entries.len() - from,
{
    if from < 0 || from >= entries.len() {
        Map::empty()
    } else {
        table_from(entries, from + 1).insert(entries[from].protocol_system@, entries[from].encoder)
    }
}

proof fn lemma_table_keys(entries: Seq<ExecutorEntry>, from: int, name: Seq<char>)
    requires
        0 <= from <= entries.len(),
    ensures
        table_from(entries, from).contains_key(name) <==> exists|k: int|
            from <= k < entries.len() && (#[trigger] entries[k]).protocol_system@ == name,
        entries_wf(entries) ==> forall|n: Seq<char>| #[trigger]
            table_from(entries, from).contains_key(n) ==> table_from(entries, from)[n].wf(),
    decreases entries.len() - from,
{
    if from < entries.len() {
        lemma_table_keys(entries, from + 1, name);
        if table_from(entries, from).contains_key(name) {
            if entries[from].protocol_system@ == name {
            } else {
                assert(table_from(entries, from + 1).contains_key(name));
            }
        }
    }
}

impl View for SwapEncoderRegistry {
    type V = Map<Seq<char>, SwapEncoder>;

    closed spec fn view(&self) -> Map<Seq<char>, SwapEncoder> {
        self.encoders@
    }
}

impl SwapEncoderRegistry {
    /// Every encoder in the table has whole addresses and selectors.
    pub open spec fn wf(&self) -> bool {
        forall|name: Seq<char>| #[trigger] self@.contains_key(name) ==> self@[name].wf()
    }

    /// Builds the registry from the lines of an executor table. A line with a
    /// malformed address or selector, or a venue family named twice, is a
    /// fatal fault of the configuration.
    pub fn new(entries: Vec<ExecutorEntry>) -> (registry: Result<Self, EncodingError>)
        ensures
            match registry {
                Ok(r) => entries_wf(entries@) && entries_distinct(entries@) && r@ == table_from(
                    entries@,
                    0,
                ) && r.wf(),
                Err(e) => !(entries_wf(entries@) && entries_distinct(entries@)) && e@
                    == ErrorView::FatalError("Malformed executor table"@),
            },
    {
        let ghost all = entries@;
        let mut rest = entries;
        let mut encoders: StringHashMap<SwapEncoder> = StringHashMap::new();
        while rest.len() > 0
            invariant
                all == entries@,
                rest@ == all.subrange(0, rest@.len() as int),
                rest@.len() <= all.len(),
                encoders@ == table_from(all, rest@.len() as int),
                forall|k: int| rest@.len() <= k < all.len() ==> (#[trigger] all[k]).encoder.wf(),
                forall|i: int, j: int|
                    rest@.len() <= i < j < all.len() ==> (#[trigger] all[i]).protocol_system@
                        != (#[trigger] all[j]).protocol_system@,
            decreases rest@.len(),
        {
            let ghost before = rest@;
            let entry = rest.pop().unwrap();
            proof {
                assert(entry == all[rest@.len() as int]);
                assert(rest@ == all.subrange(0, rest@.len() as int));
                lemma_table_keys(all, before.len() as int, entry.protocol_system@);
            }
            if entry.encoder.executor_address.len() != ADDRESS_LEN || entry.encoder.selector.len()
                != SELECTOR_LEN {
                proof {
                    let at = rest@.len() as int;
                    assert(!all[at].encoder.wf());
                    assert(!entries_wf(all));
                }
                return Err(EncodingError::FatalError("Malformed executor table".to_string()));
            }
            if encoders.contains_key(entry.protocol_system.as_str()) {
                proof {
                    let at = rest@.len() as int;
                    let twin = choose|k: int|
                        before.len() <= k < all.len() && (#[trigger] all[k]).protocol_system@
                            == entry.protocol_system@;
                    assert(all[at].protocol_system@ == all[twin].protocol_system@);
                    assert(!entries_distinct(all));
                }
                return Err(EncodingError::FatalError("Malformed executor table".to_string()));
            }
            encoders.insert(entry.protocol_system, entry.encoder);
        }
        proof {
            lemma_table_keys(all, 0, Seq::<char>::empty());
        }
        Ok(SwapEncoderRegistry { encoders })
    }

    /// Finds the encoder of a venue family.
    pub fn get_encoder(&self, protocol_system: &String) -> (encoder: Result<&SwapEncoder, EncodingError>)
        ensures
            match encoder {
                Ok(e) => self@.contains_key(protocol_system@) && *e == self@[protocol_system@],
                Err(e) => !self@.contains_key(protocol_system@) && e@
                    == ErrorView::UnsupportedProtocol(protocol_system@),
            },
    {
        match self.encoders.get(protocol_system.as_str()) {
            Some(e) => Ok(e),
            None => Err(EncodingError::UnsupportedProtocol(protocol_system.clone())),
        }
    }
}

} // verus!
