use standard_udt_contracts::enhanced_sudt::error::Error as EnhancedSudtError;
use standard_udt_contracts::enhanced_sudt_meta::error::Error as EnhancedSudtMetaError;
use standard_udt_contracts::sudt::error::Error as SudtError;
use standard_udt_contracts::sudt_meta::error::Error as SudtMetaError;
use standard_udt_contracts::sys::SysErrorKind;

#[test]
fn sys_error_maps_to_syscall() {
    let error = EnhancedSudtMetaError::from(SysErrorKind::LengthNotEnough(32));

    assert_eq!(error, EnhancedSudtMetaError::Syscall);
    assert_eq!(i8::from(error), 8);
}

#[test]
fn error_sys_errors_map_to_specific_variants() {
    {
        assert_eq!(EnhancedSudtError::from(SysErrorKind::IndexOutOfBound), EnhancedSudtError::SysIndexOutOfBound);
        assert_eq!(EnhancedSudtError::from(SysErrorKind::ItemMissing), EnhancedSudtError::SysItemMissing);
        assert_eq!(EnhancedSudtError::from(SysErrorKind::LengthNotEnough(32)), EnhancedSudtError::SysLengthNotEnough);
        assert_eq!(EnhancedSudtError::from(SysErrorKind::Encoding), EnhancedSudtError::SysEncoding);
        assert_eq!(EnhancedSudtError::from(SysErrorKind::WaitFailure), EnhancedSudtError::SysWaitFailure);
        assert_eq!(EnhancedSudtError::from(SysErrorKind::InvalidFd), EnhancedSudtError::SysInvalidFd);
        assert_eq!(EnhancedSudtError::from(SysErrorKind::OtherEndClosed), EnhancedSudtError::SysOtherEndClosed);
        assert_eq!(EnhancedSudtError::from(SysErrorKind::MaxVmsSpawned), EnhancedSudtError::SysMaxVmsSpawned);
        assert_eq!(EnhancedSudtError::from(SysErrorKind::MaxFdsCreated), EnhancedSudtError::SysMaxFdsCreated);
    }
    {
        assert_eq!(SudtMetaError::from(SysErrorKind::IndexOutOfBound), SudtMetaError::SysIndexOutOfBound);
        assert_eq!(SudtMetaError::from(SysErrorKind::ItemMissing), SudtMetaError::SysItemMissing);
        assert_eq!(SudtMetaError::from(SysErrorKind::LengthNotEnough(32)), SudtMetaError::SysLengthNotEnough);
        assert_eq!(SudtMetaError::from(SysErrorKind::Encoding), SudtMetaError::SysEncoding);
        assert_eq!(SudtMetaError::from(SysErrorKind::WaitFailure), SudtMetaError::SysWaitFailure);
        assert_eq!(SudtMetaError::from(SysErrorKind::InvalidFd), SudtMetaError::SysInvalidFd);
        assert_eq!(SudtMetaError::from(SysErrorKind::OtherEndClosed), SudtMetaError::SysOtherEndClosed);
        assert_eq!(SudtMetaError::from(SysErrorKind::MaxVmsSpawned), SudtMetaError::SysMaxVmsSpawned);
        assert_eq!(SudtMetaError::from(SysErrorKind::MaxFdsCreated), SudtMetaError::SysMaxFdsCreated);
        assert_eq!(SudtMetaError::from(SysErrorKind::TypeIDError), SudtMetaError::SysTypeIdError);
    }
    {
        assert_eq!(SudtError::from(SysErrorKind::IndexOutOfBound), SudtError::SysIndexOutOfBound);
        assert_eq!(SudtError::from(SysErrorKind::ItemMissing), SudtError::SysItemMissing);
        assert_eq!(SudtError::from(SysErrorKind::LengthNotEnough(32)), SudtError::SysLengthNotEnough);
        assert_eq!(SudtError::from(SysErrorKind::Encoding), SudtError::SysEncoding);
        assert_eq!(SudtError::from(SysErrorKind::WaitFailure), SudtError::SysWaitFailure);
        assert_eq!(SudtError::from(SysErrorKind::InvalidFd), SudtError::SysInvalidFd);
        assert_eq!(SudtError::from(SysErrorKind::OtherEndClosed), SudtError::SysOtherEndClosed);
        assert_eq!(SudtError::from(SysErrorKind::MaxVmsSpawned), SudtError::SysMaxVmsSpawned);
        assert_eq!(SudtError::from(SysErrorKind::MaxFdsCreated), SudtError::SysMaxFdsCreated);
    }
}
