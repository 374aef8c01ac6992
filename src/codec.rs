//! Blocks, their canonical text form and their content hash.
use vstd::prelude::*;

verus! {

/// One message of a conversation, linked to its predecessor by hash.
#[derive(Clone, Debug)]
pub struct Block {
    /// Display flag only: never covered by the hash.
    pub incoming: bool,
    /// Hash of the preceding block, or the sentinel for a first block.
    pub previous: String,
    pub text: String,
}

/// What a block holds, as mathematical values.
pub ghost struct BlockView {
    pub incoming: bool,
    pub previous: Seq<char>,
    pub text: Seq<char>,
}

impl View for Block {
    type V = BlockView;

    open spec fn view(&self) -> BlockView {
        BlockView { incoming: self.incoming, previous: self.previous@, text: self.text@ }
    }
}

/// The views of the blocks of a chain, in order.
pub open spec fn views(chain: Seq<Block>) -> Seq<BlockView> {
    chain.map_values(|b: Block| b@)
}

/// JSON string literal (quoted and escaped) of a text.
pub uninterp spec fn json_string_of(s: Seq<char>) -> Seq<char>;

/// SHA-256 digest of the UTF-8 encoding of a text.
pub uninterp spec fn sha256_of(s: Seq<char>) -> Seq<u8>;

/// Lower-case hexadecimal digit of a value below 16.
pub open spec fn hex_digit(n: int) -> char {
    seq!['0', '1', '2', '3', '4', '5', '6', '7', '8', '9', 'a', 'b', 'c', 'd', 'e', 'f'][n]
}

/// Lower-case hexadecimal text of a byte string: two digits per byte, high nibble first.
pub open spec fn hex_of(b: Seq<u8>) -> Seq<char> {
    Seq::new(
        2 * b.len(),
        |i: int|
            if i % 2 == 0 {
                hex_digit(b[i / 2] as int / 16)
            } else {
                hex_digit(b[i / 2] as int % 16)
            },
    )
}

/// The bytes that are hashed: a JSON object of exactly `previous` and `text`.
pub open spec fn canonical(previous: Seq<char>, text: Seq<char>) -> Seq<char> {
    "{\"previous\":"@ + json_string_of(previous) + ",\"text\":"@ + json_string_of(text) + "}"@
}

/// The content hash of a block; `incoming` takes no part in it.
pub open spec fn hash_of(b: BlockView) -> Seq<char> {
    hex_of(sha256_of(canonical(b.previous, b.text)))
}

/// The `previous` value of a first block: 64 spaces, the width of a digest.
pub open spec fn sentinel() -> Seq<char> {
    Seq::new(64, |i: int| ' ')
}

/// The block that `new_block` builds on a chain for a text.
pub open spec fn next_block(chain: Seq<BlockView>, text: Seq<char>) -> BlockView {
    BlockView {
        incoming: false,
        previous: if chain.len() == 0 {
            sentinel()
        } else {
            hash_of(chain.last())
        },
        text,
    }
}

/// Relies on serde_json's `Display` for `Value::String`: the JSON literal of a text.
#[verifier::external_body]
fn json_string(s: &String) -> (r: String)
    ensures
        r@ == json_string_of(s@),
{
    serde_json::Value::String(s.clone()).to_string()
}

/// Relies on sha2's `Sha256::digest` over the text's UTF-8 bytes: a 32-byte digest.
#[verifier::external_body]
fn sha256(s: &String) -> (r: Vec<u8>)
    ensures
        r@ == sha256_of(s@),
        r@.len() == 32,
{
    <sha2::Sha256 as sha2::Digest>::digest(s.as_bytes()).to_vec()
}

/// Relies on hex::encode: two lower-case hexadecimal digits per byte, in order.
#[verifier::external_body]
fn to_hex(b: &Vec<u8>) -> (r: String)
    ensures
        r@ == hex_of(b@),
{
    hex::encode(b)
}

/// The canonical text of a block: `{"previous":<json>,"text":<json>}`.
pub fn canonical_form(block: &Block) -> (r: String)
    ensures
        r@ == canonical(block.previous@, block.text@),
{
    let mut r = String::from_str("{\"previous\":");
    let p = json_string(&block.previous);
    r.append(p.as_str());
    r.append(",\"text\":");
    let t = json_string(&block.text);
    r.append(t.as_str());
    r.append("}");
    r
}

/// The content hash of a block, as 64 lower-case hexadecimal digits.
pub fn hash(block: &Block) -> (r: String)
    ensures
        r@ == hash_of(block@),
        r@.len() == 64,
{
    let text = canonical_form(block);
    let digest = sha256(&text);
    to_hex(&digest)
}

/// The sentinel that stands as `previous` in a first block.
pub fn sentinel_text() -> (r: String)
    ensures
        r@ == sentinel(),
{
    let r = String::from_str("                                                                ");
    proof {
        reveal_strlit("                                                                ");
        assert(r@ =~= sentinel());
    }
    r
}

/// A fresh outgoing block for `text`, linked to the last block of `chain`.
pub fn block(chain: &Vec<Block>, text: &String) -> (r: Block)
    ensures
        r@ == next_block(views(chain@), text@),
{
    let previous = if chain.len() > 0 {
        hash(&chain[chain.len() - 1])
    } else {
        sentinel_text()
    };
    Block { incoming: false, previous, text: text.clone() }
}

} // verus!
