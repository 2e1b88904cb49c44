//! Which assets an XCM executor accepts from where, and which fungible
//! balances they carry.
//!
//! Locations and assets hold as plain values what these rules read: a
//! location's junctions, with parachains and general indices spelled out and
//! every other junction known by a handle; and a fungible asset's id and
//! amount, every other kind of asset being known by a handle.

use vstd::prelude::*;
use crate::scale::ScaleDecode;

verus! {

/// One step of a location.
#[derive(Debug, Clone, Copy, PartialEq, Eq, Structural)]
pub enum Junction {
    /// The parent consensus system.
    Parent,
    /// A parachain of the relay chain.
    Parachain(u32),
    /// A numeric index inside a consensus system, such as an asset id.
    GeneralIndex(u128),
    /// Any other junction, by handle.
    Other(u64),
}

/// The most junctions a location has.
pub const MAX_JUNCTIONS: usize = 8;

/// A location in the consensus universe: up to eight junctions.
#[derive(Debug, Clone)]
pub struct MultiLocation {
    junctions: Vec<Junction>,
}

/// An asset.
#[derive(Debug, Clone)]
pub enum MultiAsset {
    /// An amount of the fungible asset identified by a location.
    ConcreteFungible { id: MultiLocation, amount: u128 },
    /// An amount of the fungible asset identified by a name.
    AbstractFungible { id: Vec<u8>, amount: u128 },
    /// Any other asset or wildcard, by handle.
    Other(u64),
}

impl MultiLocation {
    /// The junctions, outermost first.
    pub closed spec fn junctions(&self) -> Seq<Junction> {
        self.junctions@
    }

    /// A location has at most eight junctions.
    pub closed spec fn wf(&self) -> bool {
        self.junctions@.len() <= MAX_JUNCTIONS
    }

    /// The location with the given junctions; `None` when there are more
    /// than eight.
    pub fn new(junctions: Vec<Junction>) -> (r: Option<Self>)
        ensures
            r is Some <==> junctions@.len() <= MAX_JUNCTIONS,
            r matches Some(l) ==> l.wf() && l.junctions() == junctions@,
    {
        if junctions.len() <= MAX_JUNCTIONS {
            Some(MultiLocation { junctions })
        } else {
            None
        }
    }

    /// The location of the relay chain itself: no junctions.
    pub fn here() -> (r: Self)
        ensures
            r.wf(),
            r.junctions() == Seq::<Junction>::empty(),
    {
        MultiLocation { junctions: Vec::new() }
    }

    /// A copy of the location.
    pub fn copy(&self) -> (r: MultiLocation)
        ensures
            r.junctions() == self.junctions(),
    {
        let mut out: Vec<Junction> = Vec::new();
        let mut i: usize = 0;
        while i < self.junctions.len()
            invariant
                i <= self.junctions@.len(),
                out@ == self.junctions@.subrange(0, i as int),
            decreases self.junctions@.len() - i,
        {
            out.push(self.junctions[i]);
            i = i + 1;
            assert(out@ =~= self.junctions@.subrange(0, i as int));
        }
        assert(self.junctions@.subrange(0, i as int) =~= self.junctions@);
        MultiLocation { junctions: out }
    }

    /// The number of junctions.
    pub fn len(&self) -> (r: usize)
        ensures
            r == self.junctions().len(),
    {
        self.junctions.len()
    }

    /// The junction at position `i`, if there is one.
    pub fn at(&self, i: usize) -> (r: Option<Junction>)
        ensures
            r == (if i < self.junctions().len() {
                Some(self.junctions()[i as int])
            } else {
                None
            }),
    {
        if i < self.junctions.len() {
            Some(self.junctions[i])
        } else {
            None
        }
    }

    /// Appends a junction; fails, leaving the location as it was, when it
    /// already has eight.
    pub fn push(&mut self, j: Junction) -> (r: Result<(), ()>)
        requires
            old(self).wf(),
        ensures
            final(self).wf(),
            r is Ok <==> old(self).junctions().len() < MAX_JUNCTIONS,
            final(self).junctions() == if r is Ok {
                old(self).junctions().push(j)
            } else {
                old(self).junctions()
            },
    {
        if self.junctions.len() < MAX_JUNCTIONS {
            self.junctions.push(j);
            Ok(())
        } else {
            Err(())
        }
    }

    /// Whether two locations are the same.
    pub fn same(&self, other: &MultiLocation) -> (r: bool)
        ensures
            r == (self.junctions() == other.junctions()),
    {
        let a = &self.junctions;
        let b = &other.junctions;
        if a.len() != b.len() {
            return false;
        }
        let mut i: usize = 0;
        while i < a.len()
            invariant
                a@ == self.junctions(),
                b@ == other.junctions(),
                a.len() == b.len(),
                i <= a.len(),
                forall|k: int| 0 <= k < i ==> a@[k] == b@[k],
            decreases a.len() - i,
        {
            if a[i] != b[i] {
                assert(a@[i as int] != b@[i as int]);
                return false;
            }
            i = i + 1;
        }
        assert(a@ =~= b@);
        true
    }
}

/// Whether two byte strings are the same.
pub fn bytes_same(a: &Vec<u8>, b: &Vec<u8>) -> (r: bool)
    ensures
        r == (a@ == b@),
{
    if a.len() != b.len() {
        return false;
    }
    let mut i: usize = 0;
    while i < a.len()
        invariant
            a.len() == b.len(),
            i <= a.len(),
            forall|k: int| 0 <= k < i ==> a@[k] == b@[k],
        decreases a.len() - i,
    {
        if a[i] != b[i] {
            assert(a@[i as int] != b@[i as int]);
            return false;
        }
        i = i + 1;
    }
    assert(a@ =~= b@);
    true
}

/// A filter to distinguish between asset/location pairs.
pub trait FilterAssetLocation {
    /// Whether the filter accepts `asset` coming from `origin`.
    spec fn accepts(asset: MultiAsset, origin: MultiLocation) -> bool;

    /// A filter to distinguish between asset/location pairs.
    fn filter_asset_location(asset: &MultiAsset, origin: &MultiLocation) -> (r: bool)
        ensures
            r == Self::accepts(*asset, *origin),
    ;
}

/// Accepts an asset from a location when it is that location's own
/// (concrete, fungible) asset.
pub struct NativeAsset;

impl FilterAssetLocation for NativeAsset {
    open spec fn accepts(asset: MultiAsset, origin: MultiLocation) -> bool {
        asset matches MultiAsset::ConcreteFungible { id, .. } && id.junctions() == origin.junctions()
    }

    fn filter_asset_location(asset: &MultiAsset, origin: &MultiLocation) -> (r: bool) {
        match asset {
            MultiAsset::ConcreteFungible { id, .. } => id.same(origin),
            _ => false,
        }
    }
}

/// `NativeAsset` accepts an asset from an origin exactly when the asset is a
/// concrete fungible whose id has the origin's junctions, all of them, one
/// for one and no more.
pub proof fn native_asset_is_the_origins_own(asset: MultiAsset, origin: MultiLocation)
    ensures
        <NativeAsset as FilterAssetLocation>::accepts(asset, origin) <==> (asset matches MultiAsset::ConcreteFungible { id, .. }
            && id.junctions().len() == origin.junctions().len()
            && forall|i: int|
            0 <= i < origin.junctions().len() ==> id.junctions()[i] == origin.junctions()[i]),
{
    match asset {
        MultiAsset::ConcreteFungible { id, .. } => {
            if id.junctions().len() == origin.junctions().len() && forall|i: int|
                0 <= i < origin.junctions().len() ==> id.junctions()[i] == origin.junctions()[i] {
                assert(id.junctions() =~= origin.junctions());
            }
        },
        _ => {},
    }
}

/// Accepts what either filter accepts, asking the first one first.
impl<A: FilterAssetLocation, B: FilterAssetLocation> FilterAssetLocation for (A, B) {
    open spec fn accepts(asset: MultiAsset, origin: MultiLocation) -> bool {
        A::accepts(asset, origin) || B::accepts(asset, origin)
    }

    fn filter_asset_location(asset: &MultiAsset, origin: &MultiLocation) -> (r: bool) {
        if A::filter_asset_location(asset, origin) {
            return true;
        }
        B::filter_asset_location(asset, origin)
    }
}

/// A balance type that an amount of `u128` converts into, when it fits.
pub trait CheckedFromU128: Sized {
    /// The balance of `amount`, `None` when it does not fit.
    spec fn from_u128_spec(amount: u128) -> Option<Self>;

    /// The balance of `amount`, `None` when it does not fit.
    fn checked_from_u128(amount: u128) -> (r: Option<Self>)
        ensures
            r == Self::from_u128_spec(amount),
    ;
}

impl CheckedFromU128 for u128 {
    open spec fn from_u128_spec(amount: u128) -> Option<u128> {
        Some(amount)
    }

    fn checked_from_u128(amount: u128) -> (r: Option<u128>) {
        Some(amount)
    }
}

impl CheckedFromU128 for u64 {
    open spec fn from_u128_spec(amount: u128) -> Option<u64> {
        if amount <= u64::MAX {
            Some(amount as u64)
        } else {
            None
        }
    }

    fn checked_from_u128(amount: u128) -> (r: Option<u64>) {
        if amount <= u64::MAX as u128 {
            Some(amount as u64)
        } else {
            None
        }
    }
}

impl CheckedFromU128 for u32 {
    open spec fn from_u128_spec(amount: u128) -> Option<u32> {
        if amount <= u32::MAX {
            Some(amount as u32)
        } else {
            None
        }
    }

    fn checked_from_u128(amount: u128) -> (r: Option<u32>) {
        if amount <= u32::MAX as u128 {
            Some(amount as u32)
        } else {
            None
        }
    }
}

/// Finds the balance of a fungible asset that a runtime handles.
pub trait MatchesFungible<Balance> {
    /// The balance of `a`, if it is an asset this matcher handles.
    spec fn matched(&self, a: MultiAsset) -> Option<Balance>;

    /// The balance of `a`, if it is an asset this matcher handles.
    fn matches_fungible(&self, a: &MultiAsset) -> (r: Option<Balance>)
        ensures
            r == self.matched(*a),
    ;
}

/// Asks the first matcher, then the second.
impl<Balance, A: MatchesFungible<Balance>, B: MatchesFungible<Balance>> MatchesFungible<Balance> for (
    A,
    B,
) {
    open spec fn matched(&self, a: MultiAsset) -> Option<Balance> {
        match self.0.matched(a) {
            Some(b) => Some(b),
            None => self.1.matched(a),
        }
    }

    fn matches_fungible(&self, a: &MultiAsset) -> (r: Option<Balance>) {
        match self.0.matches_fungible(a) {
            Some(b) => Some(b),
            None => self.1.matches_fungible(a),
        }
    }
}

/// Matches the concrete fungible asset identified by the configured location.
pub struct IsConcrete {
    pub location: MultiLocation,
}

impl<B: CheckedFromU128> MatchesFungible<B> for IsConcrete {
    open spec fn matched(&self, a: MultiAsset) -> Option<B> {
        match a {
            MultiAsset::ConcreteFungible { id, amount } => if id.junctions() == self.location.junctions() {
                B::from_u128_spec(amount)
            } else {
                None
            },
            _ => None,
        }
    }

    fn matches_fungible(&self, a: &MultiAsset) -> (r: Option<B>) {
        match a {
            MultiAsset::ConcreteFungible { id, amount } => {
                if id.same(&self.location) {
                    B::checked_from_u128(*amount)
                } else {
                    None
                }
            },
            _ => None,
        }
    }
}

/// `IsConcrete` gives a balance only for a concrete fungible asset whose id
/// has the configured location's junctions, all of them and no more, and
/// then the amount converted into the balance type; an asset whose id
/// differs from that location anywhere gives `None`.
pub proof fn is_concrete_matches_only_its_location<B: CheckedFromU128>(m: IsConcrete, a: MultiAsset)
    ensures
        <IsConcrete as MatchesFungible<B>>::matched(&m, a) is Some ==> (a matches MultiAsset::ConcreteFungible { id, amount }
            && id.junctions().len() == m.location.junctions().len()
            && (forall|i: int|
            0 <= i < id.junctions().len() ==> id.junctions()[i] == m.location.junctions()[i])
            && <IsConcrete as MatchesFungible<B>>::matched(&m, a) == B::from_u128_spec(amount)),
        (a matches MultiAsset::ConcreteFungible { id, amount } && id.junctions().len()
            == m.location.junctions().len() && forall|i: int|
            0 <= i < id.junctions().len() ==> id.junctions()[i] == m.location.junctions()[i])
            ==> <IsConcrete as MatchesFungible<B>>::matched(&m, a) == B::from_u128_spec(
            a->ConcreteFungible_amount,
        ),
        (a matches MultiAsset::ConcreteFungible { id, .. } && exists|i: int|
            0 <= i < id.junctions().len() && (i >= m.location.junctions().len()
                || id.junctions()[i] != m.location.junctions()[i]))
            ==> <IsConcrete as MatchesFungible<B>>::matched(&m, a) is None,
{
    match a {
        MultiAsset::ConcreteFungible { id, .. } => {
            if id.junctions().len() == m.location.junctions().len() && forall|i: int|
                0 <= i < id.junctions().len() ==> id.junctions()[i] == m.location.junctions()[i] {
                assert(id.junctions() =~= m.location.junctions());
            }
        },
        _ => {},
    }
}

/// Matches the abstract fungible asset of the configured name.
pub struct IsAbstract {
    pub name: Vec<u8>,
}

impl<B: CheckedFromU128> MatchesFungible<B> for IsAbstract {
    open spec fn matched(&self, a: MultiAsset) -> Option<B> {
        match a {
            MultiAsset::AbstractFungible { id, amount } => if id@ == self.name@ {
                B::from_u128_spec(amount)
            } else {
                None
            },
            _ => None,
        }
    }

    fn matches_fungible(&self, a: &MultiAsset) -> (r: Option<B>) {
        match a {
            MultiAsset::AbstractFungible { id, amount } => {
                if bytes_same(id, &self.name) {
                    B::checked_from_u128(*amount)
                } else {
                    None
                }
            },
            _ => None,
        }
    }
}

/// `IsAbstract` gives a balance only for an abstract fungible asset whose
/// name is the configured name, byte for byte, and then the amount converted
/// into the balance type.
pub proof fn is_abstract_matches_only_its_name<B: CheckedFromU128>(m: IsAbstract, a: MultiAsset)
    ensures
        <IsAbstract as MatchesFungible<B>>::matched(&m, a) is Some ==> (a matches MultiAsset::AbstractFungible { id, amount }
            && id@.len() == m.name@.len() && (forall|i: int|
            0 <= i < id@.len() ==> id@[i] == m.name@[i])
            && <IsAbstract as MatchesFungible<B>>::matched(&m, a) == B::from_u128_spec(amount)),
        (a matches MultiAsset::AbstractFungible { id, amount } && id@.len() == m.name@.len()
            && forall|i: int| 0 <= i < id@.len() ==> id@[i] == m.name@[i])
            ==> <IsAbstract as MatchesFungible<B>>::matched(&m, a) == B::from_u128_spec(
            a->AbstractFungible_amount,
        ),
{
    match a {
        MultiAsset::AbstractFungible { id, .. } => {
            if id@.len() == m.name@.len() && forall|i: int|
                0 <= i < id@.len() ==> id@[i] == m.name@[i] {
                assert(id@ =~= m.name@);
            }
        },
        _ => {},
    }
}

/// A pair of matchers gives what the first gives whenever the first matches,
/// and what the second gives otherwise.
pub proof fn matcher_pair_prefers_first<Balance, A: MatchesFungible<Balance>, B: MatchesFungible<Balance>>(
    m: (A, B),
    a: MultiAsset,
)
    ensures
        m.0.matched(a) is Some ==> m.matched(a) == m.0.matched(a),
        m.0.matched(a) is None ==> m.matched(a) == m.1.matched(a),
        m.matched(a) is None <==> (m.0.matched(a) is None && m.1.matched(a) is None),
{
}

/// Asset transaction errors.
#[derive(Debug, Clone, Copy, PartialEq, Eq, Structural)]
pub enum Error {
    /// Asset not found.
    AssetNotFound,
    /// `MultiLocation` to `AccountId` conversion failed.
    AccountIdConversionFailed,
    /// `u128` amount to currency `Balance` conversion failed.
    AmountToBalanceConversionFailed,
    /// `MultiLocation` to `AssetId` conversion failed.
    AssetIdConversionFailed,
}

/// The reason an XCM asset transaction reports for an error.
pub open spec fn transact_reason(e: Error) -> Seq<char> {
    match e {
        Error::AssetNotFound => "AssetNotFound"@,
        Error::AccountIdConversionFailed => "AccountIdConversionFailed"@,
        Error::AmountToBalanceConversionFailed => "AmountToBalanceConversionFailed"@,
        Error::AssetIdConversionFailed => "AssetIdConversionFailed"@,
    }
}

impl Error {
    /// The reason reported when an XCM asset transaction fails with this
    /// error: the variant's name.
    pub fn transact_reason(&self) -> (r: &'static str)
        ensures
            r@ == transact_reason(*self),
    {
        match self {
            Error::AssetNotFound => "AssetNotFound",
            Error::AccountIdConversionFailed => "AccountIdConversionFailed",
            Error::AmountToBalanceConversionFailed => "AmountToBalanceConversionFailed",
            Error::AssetIdConversionFailed => "AssetIdConversionFailed",
        }
    }
}

/// Converts a location into an asset id.
pub trait ConvertLocation<AssetId> {
    /// The asset id of a location's junctions, if it has one.
    spec fn convert_spec(&self, location: Seq<Junction>) -> Option<AssetId>;

    /// The asset id of a location, `Err` when it has none.
    fn convert_ref(&self, location: &MultiLocation) -> (r: Result<AssetId, ()>)
        ensures
            r == match self.convert_spec(location.junctions()) {
                Some(id) => Ok::<AssetId, ()>(id),
                None => Err(()),
            },
    ;
}

/// Whether `prefix` begins `junctions`.
pub open spec fn begins_with(junctions: Seq<Junction>, prefix: Seq<Junction>) -> bool {
    prefix.len() <= junctions.len() && junctions.subrange(0, prefix.len() as int) == prefix
}

/// Converts a `u128` into a `B` and back; either way may fail.
pub trait ConvertU128<B> {
    /// The `B` of a value, if it has one.
    spec fn convert_spec(&self, value: u128) -> Option<B>;

    /// The value of a `B`, if it has one.
    spec fn reverse_spec(&self, value: B) -> Option<u128>;

    /// The `B` of a value; `Err` when it has none.
    fn convert_ref(&self, value: u128) -> (r: Result<B, ()>)
        ensures
            r == match self.convert_spec(value) {
                Some(b) => Ok::<B, ()>(b),
                None => Err(()),
            },
    ;

    /// The value of a `B`; `Err` when it has none.
    fn reverse_ref(&self, value: &B) -> (r: Result<u128, ()>)
        ensures
            r == match self.reverse_spec(*value) {
                Some(v) => Ok::<u128, ()>(v),
                None => Err(()),
            },
    ;
}

/// Converts by checked conversion: a value converts when it fits, and every
/// converted value goes back.
pub struct JustTry;

impl<B: CheckedFromU128 + IntoU128> ConvertU128<B> for JustTry {
    open spec fn convert_spec(&self, value: u128) -> Option<B> {
        B::from_u128_spec(value)
    }

    open spec fn reverse_spec(&self, value: B) -> Option<u128> {
        Some(value.to_u128_spec())
    }

    fn convert_ref(&self, value: u128) -> (r: Result<B, ()>) {
        match B::checked_from_u128(value) {
            Some(b) => Ok(b),
            None => Err(()),
        }
    }

    fn reverse_ref(&self, value: &B) -> (r: Result<u128, ()>) {
        Ok(value.to_u128())
    }
}

/// Converts a numeric asset id into a `GeneralIndex` junction after the
/// configured prefix (typically a pallet instance), the index converting
/// into an asset id with the configured converter.
pub struct AsPrefixedGeneralIndex<ConvertAssetId> {
    pub prefix: MultiLocation,
    pub convert_asset_id: ConvertAssetId,
}

impl<AssetId, C: ConvertU128<AssetId>> ConvertLocation<AssetId> for AsPrefixedGeneralIndex<C> {
    /// The location must be the prefix followed by a general index, which
    /// must convert into an asset id; junctions after the index are ignored.
    open spec fn convert_spec(&self, location: Seq<Junction>) -> Option<AssetId> {
        let prefix = self.prefix.junctions();
        if begins_with(location, prefix) && prefix.len() < location.len() {
            match location[prefix.len() as int] {
                Junction::GeneralIndex(id) => self.convert_asset_id.convert_spec(id),
                _ => None,
            }
        } else {
            None
        }
    }

    fn convert_ref(&self, location: &MultiLocation) -> (r: Result<AssetId, ()>) {
        let prefix = &self.prefix;
        let n = prefix.len();
        let mut index: usize = 0;
        while index < n
            invariant
                n == prefix.junctions().len(),
                prefix.junctions() == self.prefix.junctions(),
                index <= n,
                forall|k: int|
                    0 <= k < index ==> k < location.junctions().len() && location.junctions()[k]
                        == prefix.junctions()[k],
            decreases n - index,
        {
            if location.at(index) != prefix.at(index) {
                proof {
                    if n <= location.junctions().len() {
                        assert(location.junctions().subrange(0, n as int)[index as int]
                            != prefix.junctions()[index as int]);
                    }
                }
                return Err(());
            }
            index = index + 1;
        }
        proof {
            if n <= location.junctions().len() {
                assert(location.junctions().subrange(0, n as int) =~= prefix.junctions());
            }
        }
        match location.at(n) {
            Some(Junction::GeneralIndex(id)) => self.convert_asset_id.convert_ref(id),
            _ => Err(()),
        }
    }
}

/// An asset id that converts back into the `u128` of a general index.
pub trait IntoU128 {
    /// The index of the id.
    spec fn to_u128_spec(&self) -> u128;

    /// The index of the id.
    fn to_u128(&self) -> (r: u128)
        ensures
            r == self.to_u128_spec(),
    ;
}

impl IntoU128 for u128 {
    open spec fn to_u128_spec(&self) -> u128 {
        *self
    }

    fn to_u128(&self) -> (r: u128) {
        *self
    }
}

impl IntoU128 for u64 {
    open spec fn to_u128_spec(&self) -> u128 {
        *self as u128
    }

    fn to_u128(&self) -> (r: u128) {
        *self as u128
    }
}

impl IntoU128 for u32 {
    open spec fn to_u128_spec(&self) -> u128 {
        *self as u128
    }

    fn to_u128(&self) -> (r: u128) {
        *self as u128
    }
}

impl<C> AsPrefixedGeneralIndex<C> {
    /// The location of an asset id: the prefix followed by the id's index as
    /// a general index; `Err` when the id has no index, or when the prefix
    /// already has eight junctions.
    pub fn reverse_ref<AssetId>(&self, what: &AssetId) -> (r: Result<MultiLocation, ()>)
        where C: ConvertU128<AssetId>,
        requires
            self.prefix.wf(),
        ensures
            r is Ok <==> (self.convert_asset_id.reverse_spec(*what) is Some
                && self.prefix.junctions().len() < MAX_JUNCTIONS),
            r matches Ok(l) ==> l.wf() && l.junctions() == self.prefix.junctions().push(
                Junction::GeneralIndex(self.convert_asset_id.reverse_spec(*what)->0),
            ),
    {
        let id = match self.convert_asset_id.reverse_ref(what) {
            Ok(id) => id,
            Err(()) => return Err(()),
        };
        let mut location = self.prefix.copy();
        match location.push(Junction::GeneralIndex(id)) {
            Ok(()) => Ok(location),
            Err(()) => Err(()),
        }
    }
}

/// `AsPrefixedGeneralIndex` converts a location only when the location
/// begins with the whole prefix, junction for junction, and has a general
/// index right after it, and then gives what the configured converter makes
/// of that index; a location that differs from the prefix at any of the
/// prefix's positions, or is too short for it, converts to nothing.
pub proof fn prefixed_general_index_needs_whole_prefix<AssetId, C: ConvertU128<AssetId>>(
    c: AsPrefixedGeneralIndex<C>,
    location: Seq<Junction>,
)
    ensures
        <AsPrefixedGeneralIndex<C> as ConvertLocation<AssetId>>::convert_spec(&c, location) is Some
            ==> (location[c.prefix.junctions().len() as int] matches Junction::GeneralIndex(index)
            && c.prefix.junctions().len() < location.len() && (forall|i: int|
            0 <= i < c.prefix.junctions().len() ==> location[i] == c.prefix.junctions()[i])
            && <AsPrefixedGeneralIndex<C> as ConvertLocation<AssetId>>::convert_spec(&c, location)
            == c.convert_asset_id.convert_spec(index)),
        (location[c.prefix.junctions().len() as int] matches Junction::GeneralIndex(index)
            && c.prefix.junctions().len() < location.len() && (forall|i: int|
            0 <= i < c.prefix.junctions().len() ==> location[i] == c.prefix.junctions()[i]))
            ==> <AsPrefixedGeneralIndex<C> as ConvertLocation<AssetId>>::convert_spec(&c, location)
            == c.convert_asset_id.convert_spec(location[c.prefix.junctions().len() as int]->GeneralIndex_0),
        (exists|i: int|
            0 <= i < c.prefix.junctions().len() && (i >= location.len() || location[i]
                != c.prefix.junctions()[i]))
            ==> <AsPrefixedGeneralIndex<C> as ConvertLocation<AssetId>>::convert_spec(&c, location) is None,
{
    let prefix = c.prefix.junctions();
    if prefix.len() <= location.len() && forall|i: int|
        0 <= i < prefix.len() ==> location[i] == prefix[i] {
        assert(location.subrange(0, prefix.len() as int) =~= prefix);
    }
    if exists|i: int| 0 <= i < prefix.len() && (i >= location.len() || location[i] != prefix[i]) {
        let i = choose|i: int| 0 <= i < prefix.len() && (i >= location.len() || location[i] != prefix[i]);
        if prefix.len() <= location.len() {
            assert(location.subrange(0, prefix.len() as int)[i] == location[i]);
        }
    }
}

/// Converting an asset id to its location and back gives the id again, when
/// the converter takes the id's index back to the id.
pub proof fn prefixed_general_index_round_trip<AssetId, C: ConvertU128<AssetId>>(
    c: AsPrefixedGeneralIndex<C>,
    what: AssetId,
    index: u128,
    location: Seq<Junction>,
)
    requires
        c.convert_asset_id.reverse_spec(what) == Some(index),
        c.convert_asset_id.convert_spec(index) == Some(what),
        location == c.prefix.junctions().push(Junction::GeneralIndex(index)),
    ensures
        <AsPrefixedGeneralIndex<C> as ConvertLocation<AssetId>>::convert_spec(&c, location) == Some(what),
{
    assert(location.subrange(0, c.prefix.junctions().len() as int) =~= c.prefix.junctions());
}

/// Finds the asset id and balance of a fungible asset that a runtime handles.
pub trait MatchesFungibles<AssetId, Balance> {
    /// The asset id and balance of `a`, or why there are none.
    spec fn matched(&self, a: MultiAsset) -> Result<(AssetId, Balance), Error>;

    /// The asset id and balance of `a`, or why there are none.
    fn matches_fungibles(&self, a: &MultiAsset) -> (r: Result<(AssetId, Balance), Error>)
        ensures
            r == self.matched(*a),
    ;
}

/// Asks the first matcher, then the second; `AssetNotFound` when neither
/// matches.
impl<AssetId, Balance, A: MatchesFungibles<AssetId, Balance>, B: MatchesFungibles<AssetId, Balance>> MatchesFungibles<
    AssetId,
    Balance,
> for (A, B) {
    open spec fn matched(&self, a: MultiAsset) -> Result<(AssetId, Balance), Error> {
        match self.0.matched(a) {
            Ok(v) => Ok(v),
            Err(_) => match self.1.matched(a) {
                Ok(v) => Ok(v),
                Err(_) => Err(Error::AssetNotFound),
            },
        }
    }

    fn matches_fungibles(&self, a: &MultiAsset) -> (r: Result<(AssetId, Balance), Error>) {
        match self.0.matches_fungibles(a) {
            Ok(v) => Ok(v),
            Err(_) => match self.1.matches_fungibles(a) {
                Ok(v) => Ok(v),
                Err(_) => Err(Error::AssetNotFound),
            },
        }
    }
}

/// Matches concrete fungible assets whose location the configured converter
/// turns into an asset id, with an amount that the configured balance
/// converter turns into a balance.
pub struct ConvertedConcreteAssetId<ConvertAssetId, ConvertBalance> {
    pub convert_asset_id: ConvertAssetId,
    pub convert_balance: ConvertBalance,
}

impl<
    AssetId,
    Balance,
    ConvertAssetId: ConvertLocation<AssetId>,
    ConvertBalance: ConvertU128<Balance>,
> MatchesFungibles<AssetId, Balance> for ConvertedConcreteAssetId<ConvertAssetId, ConvertBalance> {
    open spec fn matched(&self, a: MultiAsset) -> Result<(AssetId, Balance), Error> {
        match a {
            MultiAsset::ConcreteFungible { id, amount } => match self.convert_asset_id.convert_spec(id.junctions()) {
                None => Err(Error::AssetIdConversionFailed),
                Some(what) => match self.convert_balance.convert_spec(amount) {
                    None => Err(Error::AmountToBalanceConversionFailed),
                    Some(b) => Ok((what, b)),
                },
            },
            _ => Err(Error::AssetNotFound),
        }
    }

    fn matches_fungibles(&self, a: &MultiAsset) -> (r: Result<(AssetId, Balance), Error>) {
        let (id, amount) = match a {
            MultiAsset::ConcreteFungible { id, amount } => (id, amount),
            _ => return Err(Error::AssetNotFound),
        };
        let what = match self.convert_asset_id.convert_ref(id) {
            Ok(w) => w,
            Err(_) => return Err(Error::AssetIdConversionFailed),
        };
        let amount = match self.convert_balance.convert_ref(*amount) {
            Ok(b) => b,
            Err(_) => return Err(Error::AmountToBalanceConversionFailed),
        };
        Ok((what, amount))
    }
}

/// Matching through converters succeeds exactly on a concrete fungible asset
/// whose location converts into an asset id and whose amount converts into a
/// balance, and gives those two; otherwise the first step that fails names
/// the error: the kind of asset, then the location, then the amount.
pub proof fn converted_concrete_needs_both_conversions<
    AssetId,
    Balance,
    CA: ConvertLocation<AssetId>,
    CB: ConvertU128<Balance>,
>(m: ConvertedConcreteAssetId<CA, CB>, a: MultiAsset, what: AssetId, balance: Balance)
    ensures
        <ConvertedConcreteAssetId<CA, CB> as MatchesFungibles<AssetId, Balance>>::matched(&m, a)
            == Ok::<(AssetId, Balance), Error>((what, balance)) <==> (a matches MultiAsset::ConcreteFungible { id, amount }
            && m.convert_asset_id.convert_spec(id.junctions()) == Some(what)
            && m.convert_balance.convert_spec(amount) == Some(balance)),
        !(a is ConcreteFungible) ==> <ConvertedConcreteAssetId<CA, CB> as MatchesFungibles<AssetId, Balance>>::matched(&m, a)
            == Err::<(AssetId, Balance), Error>(Error::AssetNotFound),
        (a matches MultiAsset::ConcreteFungible { id, .. } && m.convert_asset_id.convert_spec(
            id.junctions(),
        ) is None) ==> <ConvertedConcreteAssetId<CA, CB> as MatchesFungibles<AssetId, Balance>>::matched(&m, a)
            == Err::<(AssetId, Balance), Error>(Error::AssetIdConversionFailed),
{
}

/// Converts a name into an asset id.
pub trait ConvertBytes<AssetId> {
    /// The asset id of a name, if it has one.
    spec fn convert_spec(&self, name: Seq<u8>) -> Option<AssetId>;

    /// The asset id of a name; `Err` when it has none.
    fn convert_ref(&self, name: &Vec<u8>) -> (r: Result<AssetId, ()>)
        ensures
            r == match self.convert_spec(name@) {
                Some(id) => Ok::<AssetId, ()>(id),
                None => Err(()),
            },
    ;
}

/// Converts a name by decoding it as a SCALE encoding.
pub struct Decoded;

impl<T: ScaleDecode> ConvertBytes<T> for Decoded {
    open spec fn convert_spec(&self, name: Seq<u8>) -> Option<T> {
        T::decode_spec(name)
    }

    fn convert_ref(&self, name: &Vec<u8>) -> (r: Result<T, ()>) {
        match T::scale_decode(name.as_slice()) {
            Some(t) => Ok(t),
            None => Err(()),
        }
    }
}

/// Matches abstract fungible assets whose name the configured converter
/// turns into an asset id, with an amount that the configured balance
/// converter turns into a balance.
pub struct ConvertedAbstractAssetId<ConvertAssetId, ConvertBalance> {
    pub convert_asset_id: ConvertAssetId,
    pub convert_balance: ConvertBalance,
}

impl<
    AssetId,
    Balance,
    ConvertAssetId: ConvertBytes<AssetId>,
    ConvertBalance: ConvertU128<Balance>,
> MatchesFungibles<AssetId, Balance> for ConvertedAbstractAssetId<ConvertAssetId, ConvertBalance> {
    open spec fn matched(&self, a: MultiAsset) -> Result<(AssetId, Balance), Error> {
        match a {
            MultiAsset::AbstractFungible { id, amount } => match self.convert_asset_id.convert_spec(id@) {
                None => Err(Error::AssetIdConversionFailed),
                Some(what) => match self.convert_balance.convert_spec(amount) {
                    None => Err(Error::AmountToBalanceConversionFailed),
                    Some(b) => Ok((what, b)),
                },
            },
            _ => Err(Error::AssetNotFound),
        }
    }

    fn matches_fungibles(&self, a: &MultiAsset) -> (r: Result<(AssetId, Balance), Error>) {
        let (id, amount) = match a {
            MultiAsset::AbstractFungible { id, amount } => (id, amount),
            _ => return Err(Error::AssetNotFound),
        };
        let what = match self.convert_asset_id.convert_ref(id) {
            Ok(w) => w,
            Err(_) => return Err(Error::AssetIdConversionFailed),
        };
        let amount = match self.convert_balance.convert_ref(*amount) {
            Ok(b) => b,
            Err(_) => return Err(Error::AmountToBalanceConversionFailed),
        };
        Ok((what, amount))
    }
}

/// Which assets have their teleports watched in a checking account.
pub trait ContainsAsset<AssetId> {
    /// Whether `id` is one of them.
    spec fn contains_spec(&self, id: AssetId) -> bool;

    /// Whether `id` is one of them.
    fn contains(&self, id: &AssetId) -> (r: bool)
        ensures
            r == self.contains_spec(*id),
    ;
}

/// Every asset is watched.
pub struct AllAssets;

impl<AssetId> ContainsAsset<AssetId> for AllAssets {
    open spec fn contains_spec(&self, id: AssetId) -> bool {
        true
    }

    fn contains(&self, id: &AssetId) -> (r: bool) {
        true
    }
}

/// No asset is watched.
pub struct NoAssets;

impl<AssetId> ContainsAsset<AssetId> for NoAssets {
    open spec fn contains_spec(&self, id: AssetId) -> bool {
        false
    }

    fn contains(&self, id: &AssetId) -> (r: bool) {
        false
    }
}

/// An operation on the assets backend that an XCM asset transaction asks
/// for; the caller performs it and reports its failure.
#[derive(Debug, Clone, Copy, PartialEq, Eq)]
pub enum AssetOp<AssetId, Balance, AccountId> {
    /// Check that `amount` of `asset` can be withdrawn from `who`.
    CanWithdraw { asset: AssetId, who: AccountId, amount: Balance },
    /// Create `amount` of `asset` in `who`'s account.
    MintInto { asset: AssetId, who: AccountId, amount: Balance },
    /// Destroy `amount` of `asset` from `who`'s account.
    BurnFrom { asset: AssetId, who: AccountId, amount: Balance },
    /// Move `amount` of `asset` from `source` to `dest`.
    Transfer { asset: AssetId, source: AccountId, dest: AccountId, amount: Balance },
}

/// Transacts fungible assets on an assets backend: the matcher finds the
/// asset id and balance, the account converter the accounts, and teleports
/// of the assets that `check_asset` names are watched in `checking_account`.
pub struct FungiblesMutateAdapter<Matcher, AccountIdConverter, CheckAsset, AccountId> {
    pub matcher: Matcher,
    pub account_id_converter: AccountIdConverter,
    pub check_asset: CheckAsset,
    pub checking_account: AccountId,
}

/// Transfers fungible assets on an assets backend.
pub struct FungiblesTransferAdapter<Matcher, AccountIdConverter> {
    pub matcher: Matcher,
    pub account_id_converter: AccountIdConverter,
}

/// The account of a location by a converter; `AccountIdConversionFailed`
/// when it has none.
pub open spec fn account_of<AccountId, C: ConvertLocation<AccountId>>(
    c: C,
    l: MultiLocation,
) -> Result<AccountId, Error> {
    match c.convert_spec(l.junctions()) {
        Some(a) => Ok(a),
        None => Err(Error::AccountIdConversionFailed),
    }
}

fn convert_account<AccountId, C: ConvertLocation<AccountId>>(c: &C, l: &MultiLocation) -> (r: Result<
    AccountId,
    Error,
>)
    ensures
        r == account_of(*c, *l),
{
    match c.convert_ref(l) {
        Ok(a) => Ok(a),
        Err(()) => Err(Error::AccountIdConversionFailed),
    }
}

impl<
    Matcher,
    AccountIdConverter,
    CheckAsset,
    AccountId: Copy,
> FungiblesMutateAdapter<Matcher, AccountIdConverter, CheckAsset, AccountId> {
    /// Whether `what` can be checked in: the match's error, or, for a
    /// watched asset, the withdrawal from the checking account that must be
    /// possible (its failure is `NotWithdrawable`); nothing for an unwatched
    /// one.
    pub fn can_check_in<AssetId, Balance>(&self, what: &MultiAsset) -> (r: Result<
        Option<AssetOp<AssetId, Balance, AccountId>>,
        Error,
    >)
        where Matcher: MatchesFungibles<AssetId, Balance>, CheckAsset: ContainsAsset<AssetId>,
        ensures
            r == match self.matcher.matched(*what) {
                Err(e) => Err(e),
                Ok((asset, amount)) => Ok(
                    if self.check_asset.contains_spec(asset) {
                        Some(AssetOp::CanWithdraw { asset, who: self.checking_account, amount })
                    } else {
                        None
                    },
                ),
            },
    {
        let (asset, amount) = match self.matcher.matches_fungibles(what) {
            Ok(m) => m,
            Err(e) => return Err(e),
        };
        if self.check_asset.contains(&asset) {
            Ok(Some(AssetOp::CanWithdraw { asset, who: self.checking_account, amount }))
        } else {
            Ok(None)
        }
    }

    /// Checking `what` in: a watched, matched asset is burnt from the
    /// checking account; anything else asks for nothing.
    pub fn check_in<AssetId, Balance>(&self, what: &MultiAsset) -> (r: Option<AssetOp<AssetId, Balance, AccountId>>)
        where Matcher: MatchesFungibles<AssetId, Balance>, CheckAsset: ContainsAsset<AssetId>,
        ensures
            r == match self.matcher.matched(*what) {
                Ok((asset, amount)) => if self.check_asset.contains_spec(asset) {
                    Some(AssetOp::BurnFrom { asset, who: self.checking_account, amount })
                } else {
                    None
                },
                Err(_) => None,
            },
    {
        match self.matcher.matches_fungibles(what) {
            Ok((asset, amount)) => if self.check_asset.contains(&asset) {
                Some(AssetOp::BurnFrom { asset, who: self.checking_account, amount })
            } else {
                None
            },
            Err(_) => None,
        }
    }

    /// Checking `what` out: a watched, matched asset is minted into the
    /// checking account; anything else asks for nothing.
    pub fn check_out<AssetId, Balance>(&self, what: &MultiAsset) -> (r: Option<AssetOp<AssetId, Balance, AccountId>>)
        where Matcher: MatchesFungibles<AssetId, Balance>, CheckAsset: ContainsAsset<AssetId>,
        ensures
            r == match self.matcher.matched(*what) {
                Ok((asset, amount)) => if self.check_asset.contains_spec(asset) {
                    Some(AssetOp::MintInto { asset, who: self.checking_account, amount })
                } else {
                    None
                },
                Err(_) => None,
            },
    {
        match self.matcher.matches_fungibles(what) {
            Ok((asset, amount)) => if self.check_asset.contains(&asset) {
                Some(AssetOp::MintInto { asset, who: self.checking_account, amount })
            } else {
                None
            },
            Err(_) => None,
        }
    }

    /// Depositing `what` to `who`: minting it into `who`'s account, or the
    /// error of the match or of the account's conversion.
    pub fn deposit_asset<AssetId, Balance>(&self, what: &MultiAsset, who: &MultiLocation) -> (r: Result<
        AssetOp<AssetId, Balance, AccountId>,
        Error,
    >)
        where Matcher: MatchesFungibles<AssetId, Balance>, AccountIdConverter: ConvertLocation<AccountId>,
        ensures
            r == match self.matcher.matched(*what) {
                Err(e) => Err(e),
                Ok((asset, amount)) => match account_of(self.account_id_converter, *who) {
                    Err(e) => Err(e),
                    Ok(w) => Ok(AssetOp::MintInto { asset, who: w, amount }),
                },
            },
    {
        let (asset, amount) = match self.matcher.matches_fungibles(what) {
            Ok(m) => m,
            Err(e) => return Err(e),
        };
        match convert_account(&self.account_id_converter, who) {
            Ok(w) => Ok(AssetOp::MintInto { asset, who: w, amount }),
            Err(e) => Err(e),
        }
    }

    /// Withdrawing `what` from `who`: burning it from `who`'s account, or
    /// the error of the match or of the account's conversion.
    pub fn withdraw_asset<AssetId, Balance>(&self, what: &MultiAsset, who: &MultiLocation) -> (r: Result<
        AssetOp<AssetId, Balance, AccountId>,
        Error,
    >)
        where Matcher: MatchesFungibles<AssetId, Balance>, AccountIdConverter: ConvertLocation<AccountId>,
        ensures
            r == match self.matcher.matched(*what) {
                Err(e) => Err(e),
                Ok((asset, amount)) => match account_of(self.account_id_converter, *who) {
                    Err(e) => Err(e),
                    Ok(w) => Ok(AssetOp::BurnFrom { asset, who: w, amount }),
                },
            },
    {
        let (asset, amount) = match self.matcher.matches_fungibles(what) {
            Ok(m) => m,
            Err(e) => return Err(e),
        };
        match convert_account(&self.account_id_converter, who) {
            Ok(w) => Ok(AssetOp::BurnFrom { asset, who: w, amount }),
            Err(e) => Err(e),
        }
    }
}

impl<Matcher, AccountIdConverter> FungiblesTransferAdapter<Matcher, AccountIdConverter> {
    /// Transferring `what` from `from` to `to`: moving it between their
    /// accounts, or the error of the match or of either account's
    /// conversion (the source's first).
    pub fn transfer_asset<AssetId, Balance, AccountId>(
        &self,
        what: &MultiAsset,
        from: &MultiLocation,
        to: &MultiLocation,
    ) -> (r: Result<AssetOp<AssetId, Balance, AccountId>, Error>)
        where Matcher: MatchesFungibles<AssetId, Balance>, AccountIdConverter: ConvertLocation<AccountId>,
        ensures
            r == match self.matcher.matched(*what) {
                Err(e) => Err(e),
                Ok((asset, amount)) => match account_of(self.account_id_converter, *from) {
                    Err(e) => Err(e),
                    Ok(source) => match account_of(self.account_id_converter, *to) {
                        Err(e) => Err(e),
                        Ok(dest) => Ok(AssetOp::Transfer { asset, source, dest, amount }),
                    },
                },
            },
    {
        let (asset, amount) = match self.matcher.matches_fungibles(what) {
            Ok(m) => m,
            Err(e) => return Err(e),
        };
        let source = match convert_account(&self.account_id_converter, from) {
            Ok(a) => a,
            Err(e) => return Err(e),
        };
        let dest = match convert_account(&self.account_id_converter, to) {
            Ok(a) => a,
            Err(e) => return Err(e),
        };
        Ok(AssetOp::Transfer { asset, source, dest, amount })
    }
}

/// Where the relay chain's XCM router sends a message: only to a child
/// parachain, named by a location that is that parachain alone, by downward
/// message passing. `None`: the destination cannot be reached.
pub fn downward_destination(dest: &MultiLocation) -> (r: Option<u32>)
    ensures
        r == (if dest.junctions().len() == 1 && dest.junctions()[0] is Parachain {
            Some(dest.junctions()[0]->Parachain_0)
        } else {
            None::<u32>
        }),
{
    if dest.len() == 1 {
        match dest.at(0) {
            Some(Junction::Parachain(id)) => Some(id),
            _ => None,
        }
    } else {
        None
    }
}

} // verus!
