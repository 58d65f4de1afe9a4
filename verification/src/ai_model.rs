//! The AI model contract: paid, time-limited access to a model, with
//! ratings from its users.

use vstd::prelude::*;

verus! {

use crate::context::Context;
use crate::contract::{ContractError, ContractMetadata, ContractMethod, ContractParam, MethodType};
use crate::table::{spec_table_get, spec_table_view, table_get, table_set};
use crate::utils::str_eq;

/// What a model publishes about itself.
#[derive(Debug)]
pub struct ModelMetadata {
    /// Model name.
    pub name: String,
    /// Model description.
    pub description: String,
    /// Model version.
    pub version: String,
    /// Model author.
    pub author: String,
    /// Model creation date, seconds since the Unix epoch.
    pub created_at: u64,
    /// Model tags.
    pub tags: Vec<String>,
    /// Model license.
    pub license: String,
}

/// Whether an address has access at the given time: its access expires
/// strictly after that time. An address with no grant has expiration 0 and
/// so no access.
pub open spec fn spec_has_access(
    authorized: Seq<(Seq<char>, u64)>,
    address: Seq<char>,
    current_time: u64,
) -> bool {
    spec_table_get(authorized, address) > current_time
}

/// The ratings of a list with every rating by the given address removed,
/// in order.
pub open spec fn spec_ratings_without(ratings: Seq<(Seq<char>, u8)>, address: Seq<char>) -> Seq<
    (Seq<char>, u8),
>
    decreases ratings.len(),
{
    if ratings.len() == 0 {
        Seq::empty()
    } else {
        spec_ratings_without(ratings.drop_last(), address) + if ratings.last().0 == address {
            Seq::empty()
        } else {
            seq![ratings.last()]
        }
    }
}

/// A shared AI model: its owner, metadata, content hash, access price,
/// access grants and ratings.
#[derive(Debug)]
pub struct AIModel {
    /// Model owner.
    pub owner: String,
    /// Model metadata.
    pub metadata: ModelMetadata,
    /// Content hash of the model, in content-addressable storage.
    pub model_hash: String,
    /// Access price in tokens.
    pub access_price: u64,
    /// Access grants: address to expiration timestamp, one entry each.
    pub authorized_users: Vec<(String, u64)>,
    /// Ratings, one to five, by address.
    pub ratings: Vec<(String, u8)>,
    /// Total usage count.
    pub usage_count: u64,
}

impl AIModel {
    /// The access grants.
    pub open spec fn authorized_view(&self) -> Seq<(Seq<char>, u64)> {
        spec_table_view(self.authorized_users@)
    }

    /// The ratings, in submission order.
    pub open spec fn ratings_view(&self) -> Seq<(Seq<char>, u8)> {
        Seq::new(self.ratings@.len(), |i: int| (self.ratings@[i].0@, self.ratings@[i].1))
    }

    /// Create a new model with no grants, no ratings and no usage.
    pub fn new(owner: String, metadata: ModelMetadata, model_hash: String, access_price: u64) -> (r:
        AIModel)
        ensures
            r.owner == owner,
            r.metadata == metadata,
            r.model_hash == model_hash,
            r.access_price == access_price,
            r.authorized_view() == Seq::<(Seq<char>, u64)>::empty(),
            r.ratings_view() == Seq::<(Seq<char>, u8)>::empty(),
            r.usage_count == 0,
    {
        let r = AIModel {
            owner,
            metadata,
            model_hash,
            access_price,
            authorized_users: Vec::new(),
            ratings: Vec::new(),
            usage_count: 0,
        };
        proof {
            assert(r.authorized_view() =~= Seq::<(Seq<char>, u64)>::empty());
            assert(r.ratings_view() =~= Seq::<(Seq<char>, u8)>::empty());
        }
        r
    }

    /// What this contract publishes about itself: its four methods.
    pub fn metadata() -> (r: ContractMetadata)
        ensures
            r.name@ == "HyperNova AI Model"@,
            r.version@ == "0.1.0"@,
            r.methods@.len() == 4,
            r.methods@[0].name@ == "purchase_access"@,
            r.methods@[0].method_type == MethodType::Execute,
            r.methods@[1].name@ == "rate_model"@,
            r.methods@[1].method_type == MethodType::Execute,
            r.methods@[2].name@ == "get_model_info"@,
            r.methods@[2].method_type == MethodType::Query,
            r.methods@[3].name@ == "check_access"@,
            r.methods@[3].method_type == MethodType::Query,
    {
        let mut purchase_params: Vec<ContractParam> = Vec::new();
        purchase_params.push(
            ContractParam {
                name: "duration".to_owned(),
                param_type: "u64".to_owned(),
                description: "Access duration in seconds".to_owned(),
            },
        );
        let mut rate_params: Vec<ContractParam> = Vec::new();
        rate_params.push(
            ContractParam {
                name: "rating".to_owned(),
                param_type: "u8".to_owned(),
                description: "Rating (1-5)".to_owned(),
            },
        );
        let mut check_params: Vec<ContractParam> = Vec::new();
        check_params.push(
            ContractParam {
                name: "address".to_owned(),
                param_type: "string".to_owned(),
                description: "Address to check".to_owned(),
            },
        );
        let mut methods: Vec<ContractMethod> = Vec::new();
        methods.push(
            ContractMethod {
                name: "purchase_access".to_owned(),
                method_type: MethodType::Execute,
                description: "Purchase access to the AI model".to_owned(),
                params: purchase_params,
                return_type: "bool".to_owned(),
            },
        );
        methods.push(
            ContractMethod {
                name: "rate_model".to_owned(),
                method_type: MethodType::Execute,
                description: "Rate the AI model".to_owned(),
                params: rate_params,
                return_type: "bool".to_owned(),
            },
        );
        methods.push(
            ContractMethod {
                name: "get_model_info".to_owned(),
                method_type: MethodType::Query,
                description: "Get model information".to_owned(),
                params: Vec::new(),
                return_type: "ModelInfo".to_owned(),
            },
        );
        methods.push(
            ContractMethod {
                name: "check_access".to_owned(),
                method_type: MethodType::Query,
                description: "Check if an address has access to the model".to_owned(),
                params: check_params,
                return_type: "bool".to_owned(),
            },
        );
        ContractMetadata {
            name: "HyperNova AI Model".to_owned(),
            version: "0.1.0".to_owned(),
            author: "HyperNova Chain Team".to_owned(),
            description: "AI model sharing contract for HyperNova Chain".to_owned(),
            methods,
        }
    }

    /// Purchase access for the caller until the block time plus the
    /// duration. A new purchase replaces the caller's earlier grant.
    pub fn purchase_access<S>(&mut self, ctx: &Context<S>, duration: u64) -> (r: Result<
        bool,
        ContractError,
    >)
        requires
            ctx.block_timestamp + duration <= u64::MAX,
        ensures
            r == Ok::<bool, ContractError>(true),
            spec_table_get(final(self).authorized_view(), ctx.caller@) == ctx.block_timestamp
                + duration,
            forall|a: Seq<char>|
                a != ctx.caller@ ==> spec_table_get(final(self).authorized_view(), a)
                    == spec_table_get(old(self).authorized_view(), a),
            final(self).ratings_view() == old(self).ratings_view(),
            final(self).owner == old(self).owner,
            final(self).usage_count == old(self).usage_count,
    {
        let expiration = ctx.block_timestamp + duration;
        table_set(&mut self.authorized_users, ctx.caller.as_str(), expiration);
        proof {
            assert(final(self).ratings_view() =~= old(self).ratings_view());
        }
        Ok(true)
    }

    /// Rate the model, one to five. Only an address with current access may
    /// rate; a new rating replaces the caller's earlier one.
    pub fn rate_model<S>(&mut self, ctx: &Context<S>, rating: u8) -> (r: Result<
        bool,
        ContractError,
    >)
        ensures
            rating < 1 || rating > 5 ==> r is Err && r->Err_0 is InvalidArgument && *final(self)
                == *old(self),
            1 <= rating <= 5 && !spec_has_access(
                old(self).authorized_view(),
                ctx.caller@,
                ctx.block_timestamp,
            ) ==> r is Err && r->Err_0 is Unauthorized && *final(self) == *old(self),
            1 <= rating <= 5 && spec_has_access(
                old(self).authorized_view(),
                ctx.caller@,
                ctx.block_timestamp,
            ) ==> r == Ok::<bool, ContractError>(true) && final(self).ratings_view()
                == spec_ratings_without(old(self).ratings_view(), ctx.caller@).push(
                (ctx.caller@, rating),
            ) && final(self).authorized_view() == old(self).authorized_view() && final(self).owner
                == old(self).owner && final(self).usage_count == old(self).usage_count,
    {
        if rating < 1 || rating > 5 {
            return Err(
                ContractError::InvalidArgument("Rating must be between 1 and 5".to_owned()),
            );
        }
        if !self.has_access(ctx.caller.as_str(), ctx.block_timestamp) {
            return Err(
                ContractError::Unauthorized("Must have access to rate the model".to_owned()),
            );
        }
        let ghost r0 = self.ratings_view();
        let n = self.ratings.len();
        let mut kept: Vec<(String, u8)> = Vec::new();
        proof {
            assert(Seq::new(kept@.len(), |k: int| (kept@[k].0@, kept@[k].1)) =~= spec_ratings_without(
                r0.take(0),
                ctx.caller@,
            ));
        }
        let mut i: usize = 0;
        while i < n
            invariant
                i <= n,
                n == r0.len(),
                n == self.ratings@.len(),
                self.ratings_view() == r0,
                Seq::new(kept@.len(), |k: int| (kept@[k].0@, kept@[k].1)) == spec_ratings_without(
                    r0.take(i as int),
                    ctx.caller@,
                ),
            decreases n - i,
        {
            let ghost kv0 = Seq::new(kept@.len(), |k: int| (kept@[k].0@, kept@[k].1));
            proof {
                assert(r0[i as int] == (self.ratings@[i as int].0@, self.ratings@[i as int].1));
            }
            if !str_eq(self.ratings[i].0.as_str(), ctx.caller.as_str()) {
                let addr = self.ratings[i].0.clone();
                let score = self.ratings[i].1;
                kept.push((addr, score));
            }
            proof {
                let t = r0.take(i + 1 as int);
                assert(t.drop_last() =~= r0.take(i as int));
                assert(t.last() == r0[i as int]);
                assert(Seq::new(kept@.len(), |k: int| (kept@[k].0@, kept@[k].1)) =~= (
                if r0[i as int].0 == ctx.caller@ {
                    kv0
                } else {
                    kv0.push(r0[i as int])
                }));
                assert(Seq::new(kept@.len(), |k: int| (kept@[k].0@, kept@[k].1))
                    =~= spec_ratings_without(t, ctx.caller@));
            }
            i = i + 1;
        }
        proof {
            assert(r0.take(n as int) =~= r0);
        }
        kept.push((ctx.caller.clone(), rating));
        self.ratings = kept;
        proof {
            assert(final(self).ratings_view() =~= spec_ratings_without(r0, ctx.caller@).push(
                (ctx.caller@, rating),
            ));
            assert(final(self).authorized_view() =~= old(self).authorized_view());
        }
        Ok(true)
    }

    /// Whether an address has access at the given time.
    pub fn check_access(&self, address: String, current_time: u64) -> (r: Result<
        bool,
        ContractError,
    >)
        ensures
            r == Ok::<bool, ContractError>(
                spec_has_access(self.authorized_view(), address@, current_time),
            ),
    {
        Ok(self.has_access(address.as_str(), current_time))
    }

    /// Whether an address holds a grant that expires after the given time.
    pub fn has_access(&self, address: &str, current_time: u64) -> (r: bool)
        ensures
            r == spec_has_access(self.authorized_view(), address@, current_time),
    {
        let expiration = table_get(&self.authorized_users, address);
        expiration > current_time
    }
}

} // verus!
