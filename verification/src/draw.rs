//! Numbers that are drawn at random, each for one purpose: a number that was drawn
//! as an identifier cannot be taken for one that was drawn as a secret.

use crate::ids::{self, random_id};
use vstd::prelude::*;

verus! {

/// A number that was drawn to be the identifier of a machine.
pub closed spec fn is_identifier(n: u128) -> bool {
    ids::was_drawn(n)
}

/// A number that was drawn to be the secret of an agent.
pub closed spec fn is_secret(n: u128) -> bool {
    ids::was_drawn(n)
}

/// A number that was drawn to tell a member of a pool from the others.
pub closed spec fn is_member_tag(n: u128) -> bool {
    ids::was_drawn(n)
}

pub(crate) fn identifier() -> (n: u128)
    ensures
        is_identifier(n),
        ids::is_random_id(n),
{
    random_id()
}

pub(crate) fn secret() -> (n: u128)
    ensures
        is_secret(n),
        ids::is_random_id(n),
{
    random_id()
}

pub(crate) fn member_tag() -> (n: u128)
    ensures
        is_member_tag(n),
        ids::is_random_id(n),
{
    random_id()
}

// ------------------------------------------------------------------------ laws

/// Whatever a number is drawn for, it was drawn at random.
pub proof fn every_number_is_drawn_at_random(n: u128)
    requires
        is_identifier(n) || is_secret(n) || is_member_tag(n),
    ensures
        ids::was_drawn(n),
{
}

} // verus!
