use moonrabbit::adder::HeadData;
use moonrabbit::xcm_assets::{
    downward_destination, AsPrefixedGeneralIndex, ConvertLocation, ConvertU128,
    ConvertedAbstractAssetId, ConvertedConcreteAssetId, Decoded, Error, FilterAssetLocation,
    IsAbstract, IsConcrete, JustTry, Junction, MatchesFungible, MatchesFungibles, MultiAsset,
    MultiLocation, NativeAsset, AllAssets, AssetOp, FungiblesMutateAdapter,
    FungiblesTransferAdapter, NoAssets,
};

fn loc(js: &[Junction]) -> MultiLocation {
    MultiLocation::new(js.to_vec()).unwrap()
}

fn concrete(js: &[Junction], amount: u128) -> MultiAsset {
    MultiAsset::ConcreteFungible { id: loc(js), amount }
}

fn parent() -> IsConcrete {
    IsConcrete { location: loc(&[Junction::Parent]) }
}

fn dot() -> IsAbstract {
    IsAbstract { name: b"DOT".to_vec() }
}

/// The assets pallet is the junction known by handle 50.
fn asset_ids() -> AsPrefixedGeneralIndex<JustTry> {
    AsPrefixedGeneralIndex { prefix: loc(&[Junction::Other(50)]), convert_asset_id: JustTry }
}

#[test]
fn locations_hold_at_most_eight_junctions() {
    assert!(MultiLocation::new(vec![Junction::Parent; 8]).is_some());
    assert!(MultiLocation::new(vec![Junction::Parent; 9]).is_none());
    let mut l = loc(&[Junction::Parent; 7]);
    assert_eq!(l.push(Junction::Parachain(1)), Ok(()));
    assert_eq!(l.push(Junction::Parachain(2)), Err(()));
    assert_eq!(l.len(), 8);
    assert_eq!(l.at(7), Some(Junction::Parachain(1)));
    assert_eq!(l.at(8), None);
    assert!(MultiLocation::here().same(&loc(&[])));
    assert!(!loc(&[Junction::Parachain(1)]).same(&loc(&[Junction::Parachain(2)])));
    assert!(!loc(&[Junction::Parachain(1)]).same(&loc(&[])));
}

#[test]
fn native_asset_accepts_the_origin_own_asset_only() {
    let origin = loc(&[Junction::Parent]);
    assert!(NativeAsset::filter_asset_location(&concrete(&[Junction::Parent], 5), &origin));
    assert!(!NativeAsset::filter_asset_location(&concrete(&[Junction::Parachain(1)], 5), &origin));
    assert!(!NativeAsset::filter_asset_location(
        &MultiAsset::AbstractFungible { id: b"DOT".to_vec(), amount: 5 },
        &origin
    ));
    assert!(!NativeAsset::filter_asset_location(&MultiAsset::Other(1), &origin));
}

#[test]
fn a_pair_of_filters_accepts_what_either_accepts() {
    let origin = loc(&[Junction::Parachain(3)]);
    assert!(<(NativeAsset, NativeAsset)>::filter_asset_location(&concrete(&[Junction::Parachain(3)], 1), &origin));
    assert!(!<(NativeAsset, NativeAsset)>::filter_asset_location(&concrete(&[Junction::Parachain(4)], 1), &origin));
}

#[test]
fn is_concrete_matches_its_location_and_converts_the_amount() {
    let a = concrete(&[Junction::Parent], 300);
    assert_eq!(MatchesFungible::<u128>::matches_fungible(&parent(), &a), Some(300));
    assert_eq!(MatchesFungible::<u32>::matches_fungible(&parent(), &a), Some(300));
    let big = concrete(&[Junction::Parent], 1 << 40);
    assert_eq!(MatchesFungible::<u32>::matches_fungible(&parent(), &big), None);
    assert_eq!(MatchesFungible::<u64>::matches_fungible(&parent(), &big), Some(1 << 40));
    let elsewhere = concrete(&[], 300);
    assert_eq!(MatchesFungible::<u128>::matches_fungible(&parent(), &elsewhere), None);
    let here = IsConcrete { location: MultiLocation::here() };
    assert_eq!(MatchesFungible::<u128>::matches_fungible(&here, &elsewhere), Some(300));
}

#[test]
fn is_abstract_matches_its_name() {
    let dot_asset = MultiAsset::AbstractFungible { id: b"DOT".to_vec(), amount: 7 };
    let ksm_asset = MultiAsset::AbstractFungible { id: b"KSM".to_vec(), amount: 7 };
    assert_eq!(MatchesFungible::<u64>::matches_fungible(&dot(), &dot_asset), Some(7));
    assert_eq!(MatchesFungible::<u64>::matches_fungible(&dot(), &ksm_asset), None);
    assert_eq!(MatchesFungible::<u64>::matches_fungible(&(parent(), dot()), &dot_asset), Some(7));
    assert_eq!(MatchesFungible::<u64>::matches_fungible(&(parent(), dot()), &concrete(&[Junction::Parent], 2)), Some(2));
    assert_eq!(MatchesFungible::<u64>::matches_fungible(&(parent(), dot()), &ksm_asset), None);
}

#[test]
fn prefixed_general_indices_are_asset_ids() {
    let c = asset_ids();
    let l = loc(&[Junction::Other(50), Junction::GeneralIndex(9)]);
    assert_eq!(ConvertLocation::<u32>::convert_ref(&c, &l), Ok(9));
    let trailing = loc(&[Junction::Other(50), Junction::GeneralIndex(9), Junction::Parent]);
    assert_eq!(ConvertLocation::<u32>::convert_ref(&c, &trailing), Ok(9));
    let other_pallet = loc(&[Junction::Other(51), Junction::GeneralIndex(9)]);
    assert_eq!(ConvertLocation::<u32>::convert_ref(&c, &other_pallet), Err(()));
    assert_eq!(ConvertLocation::<u32>::convert_ref(&c, &loc(&[Junction::Other(50)])), Err(()));
    assert_eq!(ConvertLocation::<u32>::convert_ref(&c, &loc(&[])), Err(()));
    let not_an_index = loc(&[Junction::Other(50), Junction::Parachain(9)]);
    assert_eq!(ConvertLocation::<u32>::convert_ref(&c, &not_an_index), Err(()));
    let too_big = loc(&[Junction::Other(50), Junction::GeneralIndex(1 << 40)]);
    assert_eq!(ConvertLocation::<u32>::convert_ref(&c, &too_big), Err(()));
    assert_eq!(ConvertLocation::<u64>::convert_ref(&c, &too_big), Ok(1 << 40));
}

#[test]
fn converted_concrete_assets_give_id_and_balance_or_the_reason() {
    let m = ConvertedConcreteAssetId { convert_asset_id: asset_ids(), convert_balance: JustTry };
    let a = concrete(&[Junction::Other(50), Junction::GeneralIndex(4)], 1000);
    assert_eq!(MatchesFungibles::<u32, u64>::matches_fungibles(&m, &a), Ok((4, 1000)));
    let unknown = concrete(&[Junction::Parent], 1000);
    assert_eq!(MatchesFungibles::<u32, u64>::matches_fungibles(&m, &unknown), Err(Error::AssetIdConversionFailed));
    let huge = concrete(&[Junction::Other(50), Junction::GeneralIndex(4)], u128::MAX);
    assert_eq!(
        MatchesFungibles::<u32, u64>::matches_fungibles(&m, &huge),
        Err(Error::AmountToBalanceConversionFailed)
    );
    assert_eq!(
        MatchesFungibles::<u32, u64>::matches_fungibles(&m, &MultiAsset::Other(3)),
        Err(Error::AssetNotFound)
    );
    let both = (
        ConvertedConcreteAssetId { convert_asset_id: asset_ids(), convert_balance: JustTry },
        ConvertedConcreteAssetId {
            convert_asset_id: AsPrefixedGeneralIndex { prefix: loc(&[Junction::Parent]), convert_asset_id: JustTry },
            convert_balance: JustTry,
        },
    );
    assert_eq!(MatchesFungibles::<u32, u64>::matches_fungibles(&both, &unknown), Err(Error::AssetNotFound));
    let via_parent = concrete(&[Junction::Parent, Junction::GeneralIndex(8)], 5);
    assert_eq!(MatchesFungibles::<u32, u64>::matches_fungibles(&both, &via_parent), Ok((8, 5)));
    assert_eq!(MatchesFungibles::<u32, u64>::matches_fungibles(&both, &a), Ok((4, 1000)));
}

#[test]
fn transact_reasons_name_the_error() {
    assert_eq!(Error::AssetNotFound.transact_reason(), "AssetNotFound");
    assert_eq!(Error::AccountIdConversionFailed.transact_reason(), "AccountIdConversionFailed");
    assert_eq!(Error::AmountToBalanceConversionFailed.transact_reason(), "AmountToBalanceConversionFailed");
    assert_eq!(Error::AssetIdConversionFailed.transact_reason(), "AssetIdConversionFailed");
}

#[test]
fn messages_go_down_to_child_parachains_only() {
    assert_eq!(downward_destination(&loc(&[Junction::Parachain(2000)])), Some(2000));
    assert_eq!(downward_destination(&loc(&[Junction::Parent])), None);
    assert_eq!(downward_destination(&loc(&[])), None);
    assert_eq!(downward_destination(&loc(&[Junction::Parachain(1), Junction::Parachain(2)])), None);
}

#[test]
fn asset_ids_go_back_to_prefixed_locations() {
    let c = asset_ids();
    let l = c.reverse_ref(&9u32).unwrap();
    assert!(l.same(&loc(&[Junction::Other(50), Junction::GeneralIndex(9)])));
    assert_eq!(ConvertLocation::<u32>::convert_ref(&c, &l), Ok(9));
    let full = AsPrefixedGeneralIndex { prefix: loc(&[Junction::Parent; 8]), convert_asset_id: JustTry };
    assert!(full.reverse_ref(&1u64).is_err());
}

#[test]
fn just_try_converts_when_the_value_fits() {
    assert_eq!(ConvertU128::<u32>::convert_ref(&JustTry, 7), Ok(7u32));
    assert_eq!(ConvertU128::<u32>::convert_ref(&JustTry, 1 << 40), Err(()));
    assert_eq!(ConvertU128::<u64>::reverse_ref(&JustTry, &9u64), Ok(9u128));
}

#[test]
fn converted_abstract_assets_decode_their_name() {
    let head = HeadData { number: 1, parent_hash: [2; 32], post_state: [3; 32] };
    let m = ConvertedAbstractAssetId { convert_asset_id: Decoded, convert_balance: JustTry };
    let a = MultiAsset::AbstractFungible { id: head.encode(), amount: 12 };
    assert_eq!(MatchesFungibles::<HeadData, u32>::matches_fungibles(&m, &a), Ok((head, 12u32)));
    let bad_name = MultiAsset::AbstractFungible { id: vec![1, 2, 3], amount: 12 };
    assert_eq!(
        MatchesFungibles::<HeadData, u32>::matches_fungibles(&m, &bad_name),
        Err(Error::AssetIdConversionFailed)
    );
    let big = MultiAsset::AbstractFungible { id: HeadData::default().encode(), amount: u128::MAX };
    assert_eq!(
        MatchesFungibles::<HeadData, u32>::matches_fungibles(&m, &big),
        Err(Error::AmountToBalanceConversionFailed)
    );
    assert_eq!(
        MatchesFungibles::<HeadData, u32>::matches_fungibles(&m, &MultiAsset::Other(1)),
        Err(Error::AssetNotFound)
    );
}

type Matcher = ConvertedConcreteAssetId<AsPrefixedGeneralIndex<JustTry>, JustTry>;

fn matcher() -> Matcher {
    ConvertedConcreteAssetId { convert_asset_id: asset_ids(), convert_balance: JustTry }
}

/// Accounts are the locations `Parent, GeneralIndex(n)`.
fn accounts() -> AsPrefixedGeneralIndex<JustTry> {
    AsPrefixedGeneralIndex { prefix: loc(&[Junction::Parent]), convert_asset_id: JustTry }
}

fn account(n: u128) -> MultiLocation {
    loc(&[Junction::Parent, Junction::GeneralIndex(n)])
}

fn asset(id: u128, amount: u128) -> MultiAsset {
    concrete(&[Junction::Other(50), Junction::GeneralIndex(id)], amount)
}

#[test]
fn the_mutate_adapter_tracks_teleports_of_checked_assets() {
    let checked = FungiblesMutateAdapter {
        matcher: matcher(),
        account_id_converter: accounts(),
        check_asset: AllAssets,
        checking_account: 99u64,
    };
    let unchecked = FungiblesMutateAdapter {
        matcher: matcher(),
        account_id_converter: accounts(),
        check_asset: NoAssets,
        checking_account: 99u64,
    };
    let a = asset(3, 40);
    let r: Result<Option<AssetOp<u32, u64, u64>>, Error> = checked.can_check_in(&a);
    assert_eq!(r, Ok(Some(AssetOp::CanWithdraw { asset: 3, who: 99, amount: 40 })));
    let r: Result<Option<AssetOp<u32, u64, u64>>, Error> = unchecked.can_check_in(&a);
    assert_eq!(r, Ok(None));
    let r: Result<Option<AssetOp<u32, u64, u64>>, Error> = checked.can_check_in(&MultiAsset::Other(1));
    assert_eq!(r, Err(Error::AssetNotFound));
    let r: Option<AssetOp<u32, u64, u64>> = checked.check_in(&a);
    assert_eq!(r, Some(AssetOp::BurnFrom { asset: 3, who: 99, amount: 40 }));
    let r: Option<AssetOp<u32, u64, u64>> = checked.check_out(&a);
    assert_eq!(r, Some(AssetOp::MintInto { asset: 3, who: 99, amount: 40 }));
    let r: Option<AssetOp<u32, u64, u64>> = unchecked.check_out(&a);
    assert_eq!(r, None);
    let r: Option<AssetOp<u32, u64, u64>> = checked.check_in(&MultiAsset::Other(1));
    assert_eq!(r, None);
}

#[test]
fn the_mutate_adapter_deposits_and_withdraws() {
    let adapter = FungiblesMutateAdapter {
        matcher: matcher(),
        account_id_converter: accounts(),
        check_asset: NoAssets,
        checking_account: 0u64,
    };
    let a = asset(3, 40);
    let r: Result<AssetOp<u32, u64, u64>, Error> = adapter.deposit_asset(&a, &account(7));
    assert_eq!(r, Ok(AssetOp::MintInto { asset: 3, who: 7, amount: 40 }));
    let r: Result<AssetOp<u32, u64, u64>, Error> = adapter.withdraw_asset(&a, &account(7));
    assert_eq!(r, Ok(AssetOp::BurnFrom { asset: 3, who: 7, amount: 40 }));
    let r: Result<AssetOp<u32, u64, u64>, Error> = adapter.deposit_asset(&a, &loc(&[Junction::Parachain(1)]));
    assert_eq!(r, Err(Error::AccountIdConversionFailed));
    let r: Result<AssetOp<u32, u64, u64>, Error> = adapter.withdraw_asset(&asset(3, u128::MAX), &account(7));
    assert_eq!(r, Err(Error::AmountToBalanceConversionFailed));
}

#[test]
fn the_transfer_adapter_moves_between_accounts() {
    let adapter = FungiblesTransferAdapter { matcher: matcher(), account_id_converter: accounts() };
    let a = asset(3, 40);
    let r: Result<AssetOp<u32, u64, u64>, Error> = adapter.transfer_asset(&a, &account(1), &account(2));
    assert_eq!(r, Ok(AssetOp::Transfer { asset: 3, source: 1, dest: 2, amount: 40 }));
    let r: Result<AssetOp<u32, u64, u64>, Error> = adapter.transfer_asset(&a, &loc(&[]), &account(2));
    assert_eq!(r, Err(Error::AccountIdConversionFailed));
    let r: Result<AssetOp<u32, u64, u64>, Error> = adapter.transfer_asset(&concrete(&[Junction::Parent], 1), &account(1), &account(2));
    assert_eq!(r, Err(Error::AssetIdConversionFailed));
}
