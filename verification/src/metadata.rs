//! Per-token metadata records and their construction: templated name,
//! image URL, edition number, and the attribute list mirroring the chosen
//! combination in category order.

use vstd::prelude::*;
use crate::choice::LayerChoice;
use crate::config::{ForbiddenPair, MetadataConfig};
use crate::constraints::{spec_present, spec_violates, spec_violates_pair};

verus! {

/// One emitted metadata record.
#[derive(Debug)]
pub struct NftMetadata {
    pub name: String,
    pub description: String,
    pub image: String,
    pub edition: u32,
    pub attributes: Vec<Attribute>,
}

/// One trait shown in a metadata record.
#[derive(Debug)]
pub struct Attribute {
    pub trait_type: String,
    pub value: String,
}

/// The decimal digit character for a value below ten.
pub open spec fn spec_digit(d: int) -> char {
    if d == 0 {
        '0'
    } else if d == 1 {
        '1'
    } else if d == 2 {
        '2'
    } else if d == 3 {
        '3'
    } else if d == 4 {
        '4'
    } else if d == 5 {
        '5'
    } else if d == 6 {
        '6'
    } else if d == 7 {
        '7'
    } else if d == 8 {
        '8'
    } else {
        '9'
    }
}

/// The decimal digit sequence of a non-negative number, most significant
/// digit first, without leading zeros.
pub open spec fn spec_u32_dec(n: int) -> Seq<char>
    decreases n,
{
    if n < 10 {
        seq![spec_digit(n)]
    } else {
        spec_u32_dec(n / 10) + seq![spec_digit(n % 10)]
    }
}

/// The one-character string of a decimal digit.
fn digit_str(d: u32) -> (s: &'static str)
    requires
        d < 10,
    ensures
        s@ == seq![spec_digit(d as int)],
{
    proof {
        reveal_strlit("0");
        reveal_strlit("1");
        reveal_strlit("2");
        reveal_strlit("3");
        reveal_strlit("4");
        reveal_strlit("5");
        reveal_strlit("6");
        reveal_strlit("7");
        reveal_strlit("8");
        reveal_strlit("9");
    }
    let s: &'static str = if d == 0 {
        "0"
    } else if d == 1 {
        "1"
    } else if d == 2 {
        "2"
    } else if d == 3 {
        "3"
    } else if d == 4 {
        "4"
    } else if d == 5 {
        "5"
    } else if d == 6 {
        "6"
    } else if d == 7 {
        "7"
    } else if d == 8 {
        "8"
    } else {
        "9"
    };
    proof {
        assert(s@ =~= seq![spec_digit(d as int)]);
    }
    s
}

/// Formats a number in decimal.
pub fn u32_to_dec(n: u32) -> (s: String)
    ensures
        s@ == spec_u32_dec(n as int),
    decreases n,
{
    if n < 10 {
        String::from_str(digit_str(n))
    } else {
        let mut s = u32_to_dec(n / 10);
        s.append(digit_str(n % 10));
        s
    }
}

/// The name of a token: the configured collection name and the token id,
/// or `#id` alone when no name is configured.
pub open spec fn spec_token_name(cfg_name: Seq<char>, token_id: int) -> Seq<char> {
    if cfg_name.len() == 0 {
        "#"@ + spec_u32_dec(token_id)
    } else {
        cfg_name + " #"@ + spec_u32_dec(token_id)
    }
}

/// The image URL of a token: base URL, `/`, token id, `.png`.
pub open spec fn spec_token_image(base_url: Seq<char>, token_id: int) -> Seq<char> {
    base_url + "/"@ + spec_u32_dec(token_id) + ".png"@
}

/// Builds the metadata record of one token: templated name, configured
/// description, image URL, edition number equal to the token id, and one
/// attribute per chosen layer, in category order.
pub fn build_metadata(
    token_id: u32,
    metadata_config: &MetadataConfig,
    layers: &Vec<LayerChoice>,
) -> (m: NftMetadata)
    ensures
        m.name@ == spec_token_name(metadata_config.name@, token_id as int),
        m.description@ == metadata_config.description@,
        m.image@ == spec_token_image(metadata_config.base_image_url@, token_id as int),
        m.edition == token_id,
        m.attributes@.len() == layers@.len(),
        forall|i: int| 0 <= i < layers@.len() ==>
            (#[trigger] m.attributes@[i]).trait_type@ == layers@[i].trait_type@
            && m.attributes@[i].value@ == layers@[i].value@,
{
    let dec = u32_to_dec(token_id);
    let mut name = String::new();
    if metadata_config.name.as_str().unicode_len() == 0 {
        name.append("#");
        name.append(dec.as_str());
    } else {
        name.append(metadata_config.name.as_str());
        name.append(" #");
        name.append(dec.as_str());
    }
    proof {
        assert(name@ =~= spec_token_name(metadata_config.name@, token_id as int));
    }
    let mut image = String::new();
    image.append(metadata_config.base_image_url.as_str());
    image.append("/");
    image.append(dec.as_str());
    image.append(".png");
    proof {
        assert(image@ =~= spec_token_image(metadata_config.base_image_url@, token_id as int));
    }
    let mut attributes: Vec<Attribute> = Vec::new();
    let n: usize = layers.len();
    let mut i: usize = 0;
    while i < n
        invariant
            i <= n,
            n == layers@.len(),
            attributes@.len() == i,
            forall|j: int| 0 <= j < i ==>
                (#[trigger] attributes@[j]).trait_type@ == layers@[j].trait_type@
                && attributes@[j].value@ == layers@[j].value@,
        decreases n - i,
    {
        attributes.push(Attribute {
            trait_type: layers[i].trait_type.clone(),
            value: layers[i].value.clone(),
        });
        i = i + 1;
    }
    NftMetadata {
        name,
        description: metadata_config.description.clone(),
        image,
        edition: token_id,
        attributes,
    }
}

/// A trait fact is present among a record's attributes iff some attribute
/// carries exactly that pair.
pub open spec fn spec_attr_present(attrs: Seq<Attribute>, t: Seq<char>, v: Seq<char>) -> bool {
    exists|i: int| 0 <= i < attrs.len() && attrs[i].trait_type@ == t && attrs[i].value@ == v
}

/// Law: the attribute list of an emitted token never shows both members
/// of a forbidden pair. The attributes mirror a combination that passed
/// the constraint evaluator, and presence transfers between the two.
pub proof fn lemma_metadata_respects_forbidden(
    attrs: Seq<Attribute>,
    layers: Seq<LayerChoice>,
    pairs: Seq<ForbiddenPair>,
)
    requires
        attrs.len() == layers.len(),
        forall|i: int| 0 <= i < layers.len() ==>
            (#[trigger] attrs[i]).trait_type@ == layers[i].trait_type@
            && attrs[i].value@ == layers[i].value@,
        !spec_violates(layers, pairs),
    ensures
        forall|k: int| 0 <= k < pairs.len() ==>
            !((#[trigger] spec_attr_present(attrs, pairs[k].a.trait_type@, pairs[k].a.value@))
                && spec_attr_present(attrs, pairs[k].b.trait_type@, pairs[k].b.value@)),
{
    assert forall|k: int|
        0 <= k < pairs.len()
            && (#[trigger] spec_attr_present(attrs, pairs[k].a.trait_type@, pairs[k].a.value@))
            && spec_attr_present(attrs, pairs[k].b.trait_type@, pairs[k].b.value@)
        implies false by {
        let p = pairs[k];
        let ia = choose|i: int|
            0 <= i < attrs.len() && attrs[i].trait_type@ == p.a.trait_type@
                && attrs[i].value@ == p.a.value@;
        let ib = choose|i: int|
            0 <= i < attrs.len() && attrs[i].trait_type@ == p.b.trait_type@
                && attrs[i].value@ == p.b.value@;
        assert(layers[ia].trait_type@ == p.a.trait_type@ && layers[ia].value@ == p.a.value@);
        assert(layers[ib].trait_type@ == p.b.trait_type@ && layers[ib].value@ == p.b.value@);
        assert(spec_present(layers, p.a.trait_type@, p.a.value@));
        assert(spec_present(layers, p.b.trait_type@, p.b.value@));
        assert(spec_violates_pair(layers, p));
    }
}

} // verus!
