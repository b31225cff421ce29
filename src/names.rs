use vstd::prelude::*;

verus! {

// The names of the dictionary keys and values that the walkers read, as bytes.

/// `Annots`
pub open spec fn name_annots() -> Seq<u8> {
    seq![65u8, 110, 110, 111, 116, 115]
}

pub fn annots() -> (k: [u8; 6])
    ensures
        k@ == name_annots(),
{
    [65, 110, 110, 111, 116, 115]
}

/// `Subtype`
pub open spec fn name_subtype() -> Seq<u8> {
    seq![83u8, 117, 98, 116, 121, 112, 101]
}

pub fn subtype() -> (k: [u8; 7])
    ensures
        k@ == name_subtype(),
{
    [83, 117, 98, 116, 121, 112, 101]
}

/// `Link`
pub open spec fn name_link() -> Seq<u8> {
    seq![76u8, 105, 110, 107]
}

pub fn link() -> (k: [u8; 4])
    ensures
        k@ == name_link(),
{
    [76, 105, 110, 107]
}

/// `Rect`
pub open spec fn name_rect() -> Seq<u8> {
    seq![82u8, 101, 99, 116]
}

pub fn rect() -> (k: [u8; 4])
    ensures
        k@ == name_rect(),
{
    [82, 101, 99, 116]
}

/// `Dest`
pub open spec fn name_dest() -> Seq<u8> {
    seq![68u8, 101, 115, 116]
}

pub fn dest() -> (k: [u8; 4])
    ensures
        k@ == name_dest(),
{
    [68, 101, 115, 116]
}

/// `A`
pub open spec fn name_action() -> Seq<u8> {
    seq![65u8]
}

pub fn action() -> (k: [u8; 1])
    ensures
        k@ == name_action(),
{
    [65]
}

/// `S`
pub open spec fn name_kind() -> Seq<u8> {
    seq![83u8]
}

pub fn kind() -> (k: [u8; 1])
    ensures
        k@ == name_kind(),
{
    [83]
}

/// `URI`
pub open spec fn name_uri() -> Seq<u8> {
    seq![85u8, 82, 73]
}

pub fn uri() -> (k: [u8; 3])
    ensures
        k@ == name_uri(),
{
    [85, 82, 73]
}

/// `GoToR`
pub open spec fn name_go_to_remote() -> Seq<u8> {
    seq![71u8, 111, 84, 111, 82]
}

pub fn go_to_remote() -> (k: [u8; 5])
    ensures
        k@ == name_go_to_remote(),
{
    [71, 111, 84, 111, 82]
}

/// `GoTo`
pub open spec fn name_go_to() -> Seq<u8> {
    seq![71u8, 111, 84, 111]
}

pub fn go_to() -> (k: [u8; 4])
    ensures
        k@ == name_go_to(),
{
    [71, 111, 84, 111]
}

/// `F`
pub open spec fn name_file() -> Seq<u8> {
    seq![70u8]
}

pub fn file() -> (k: [u8; 1])
    ensures
        k@ == name_file(),
{
    [70]
}

/// `D`
pub open spec fn name_destination() -> Seq<u8> {
    seq![68u8]
}

pub fn destination() -> (k: [u8; 1])
    ensures
        k@ == name_destination(),
{
    [68]
}

/// `Root`
pub open spec fn name_root() -> Seq<u8> {
    seq![82u8, 111, 111, 116]
}

pub fn root() -> (k: [u8; 4])
    ensures
        k@ == name_root(),
{
    [82, 111, 111, 116]
}

/// `Outlines`
pub open spec fn name_outlines() -> Seq<u8> {
    seq![79u8, 117, 116, 108, 105, 110, 101, 115]
}

pub fn outlines() -> (k: [u8; 8])
    ensures
        k@ == name_outlines(),
{
    [79, 117, 116, 108, 105, 110, 101, 115]
}

/// `First`
pub open spec fn name_first() -> Seq<u8> {
    seq![70u8, 105, 114, 115, 116]
}

pub fn first() -> (k: [u8; 5])
    ensures
        k@ == name_first(),
{
    [70, 105, 114, 115, 116]
}

/// `Next`
pub open spec fn name_next() -> Seq<u8> {
    seq![78u8, 101, 120, 116]
}

pub fn next() -> (k: [u8; 4])
    ensures
        k@ == name_next(),
{
    [78, 101, 120, 116]
}

/// `Title`
pub open spec fn name_title() -> Seq<u8> {
    seq![84u8, 105, 116, 108, 101]
}

pub fn title() -> (k: [u8; 5])
    ensures
        k@ == name_title(),
{
    [84, 105, 116, 108, 101]
}

} // verus!
