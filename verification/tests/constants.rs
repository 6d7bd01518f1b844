use windows_sandbox::{acl, job, process, token, token_groups, win32};
use windows_sys::Win32::Foundation as foundation;
use windows_sys::Win32::Security as security;
use windows_sys::Win32::Security::Authorization as authorization;
use windows_sys::Win32::Storage::FileSystem as files;
use windows_sys::Win32::System::JobObjects as jobs;
use windows_sys::Win32::System::Threading as threading;

#[test]
fn access_rights_are_those_of_the_system() {
    assert_eq!(acl::DELETE, files::DELETE);
    assert_eq!(acl::READ_CONTROL, files::READ_CONTROL);
    assert_eq!(acl::WRITE_DAC, files::WRITE_DAC);
    assert_eq!(acl::WRITE_OWNER, files::WRITE_OWNER);
    assert_eq!(acl::FILE_DELETE_CHILD, files::FILE_DELETE_CHILD);
    assert_eq!(acl::FILE_GENERIC_READ, files::FILE_GENERIC_READ);
    assert_eq!(acl::FILE_GENERIC_WRITE, files::FILE_GENERIC_WRITE);
    assert_eq!(acl::FILE_GENERIC_EXECUTE, files::FILE_GENERIC_EXECUTE);
    assert_eq!(token::GENERIC_ALL, foundation::GENERIC_ALL);
    assert_eq!(
        acl::WRITE_ALLOW_MASK,
        files::FILE_GENERIC_READ
            | files::FILE_GENERIC_WRITE
            | files::FILE_GENERIC_EXECUTE
            | files::DELETE
            | files::FILE_DELETE_CHILD
    );
    assert_eq!(
        acl::NULL_DEVICE_MASK,
        files::FILE_GENERIC_READ | files::FILE_GENERIC_WRITE | files::FILE_GENERIC_EXECUTE
    );
    assert_eq!(acl::DACL_EDIT_ACCESS, files::READ_CONTROL | files::WRITE_DAC);
}

#[test]
fn file_flags_are_those_of_the_system() {
    assert_eq!(acl::FILE_SHARE_READ, files::FILE_SHARE_READ);
    assert_eq!(acl::FILE_SHARE_WRITE, files::FILE_SHARE_WRITE);
    assert_eq!(acl::FILE_SHARE_DELETE, files::FILE_SHARE_DELETE);
    assert_eq!(acl::OPEN_EXISTING, files::OPEN_EXISTING);
    assert_eq!(acl::FILE_ATTRIBUTE_NORMAL, files::FILE_ATTRIBUTE_NORMAL);
    assert_eq!(acl::FILE_FLAG_BACKUP_SEMANTICS, files::FILE_FLAG_BACKUP_SEMANTICS);
}

#[test]
fn access_list_numbers_are_those_of_the_system() {
    assert_eq!(acl::SE_KERNEL_OBJECT, authorization::SE_KERNEL_OBJECT);
    assert_eq!(acl::DACL_SECURITY_INFORMATION, security::DACL_SECURITY_INFORMATION);
    assert_eq!(acl::GRANT_ACCESS, authorization::GRANT_ACCESS);
    assert_eq!(acl::SET_ACCESS, authorization::SET_ACCESS);
    assert_eq!(acl::REVOKE_ACCESS, authorization::REVOKE_ACCESS);
    assert_eq!(acl::TRUSTEE_IS_SID, authorization::TRUSTEE_IS_SID);
    assert_eq!(acl::TRUSTEE_IS_UNKNOWN, authorization::TRUSTEE_IS_UNKNOWN);
    assert_eq!(acl::INHERITANCE, security::CONTAINER_INHERIT_ACE | security::OBJECT_INHERIT_ACE);
    assert_eq!(acl::NULL_DEVICE_PATH, r"\\.\NUL");
    assert_eq!(acl::SECURITY_DESCRIPTOR_REVISION, 1);
}

#[test]
fn token_numbers_are_those_of_the_system() {
    assert_eq!(
        token::BASE_TOKEN_ACCESS,
        security::TOKEN_DUPLICATE
            | security::TOKEN_QUERY
            | security::TOKEN_ASSIGN_PRIMARY
            | security::TOKEN_ADJUST_DEFAULT
            | security::TOKEN_ADJUST_SESSIONID
            | security::TOKEN_ADJUST_PRIVILEGES
    );
    assert_eq!(
        token::RESTRICTION_FLAGS,
        security::DISABLE_MAX_PRIVILEGE | security::LUA_TOKEN | security::WRITE_RESTRICTED
    );
    assert_eq!(token::TOKEN_GROUPS, security::TokenGroups);
    assert_eq!(token::TOKEN_DEFAULT_DACL, security::TokenDefaultDacl);
    assert_eq!(token::WIN_WORLD_SID, security::WinWorldSid);
    assert_eq!(token::SE_PRIVILEGE_ENABLED, security::SE_PRIVILEGE_ENABLED);
    assert_eq!(token::SE_CHANGE_NOTIFY_NAME, "SeChangeNotifyPrivilege");
    assert_eq!(token_groups::SE_GROUP_LOGON_ID, 0xC000_0000);
}

#[test]
fn process_and_job_numbers_are_those_of_the_system() {
    assert_eq!(process::CREATE_SUSPENDED, threading::CREATE_SUSPENDED);
    assert_eq!(process::CREATE_UNICODE_ENVIRONMENT, threading::CREATE_UNICODE_ENVIRONMENT);
    assert_eq!(process::CREATION_FLAGS, 0x404);
    assert_eq!(process::DESKTOP, r"Winsta0\Default");
    assert_eq!(job::JOB_OBJECT_EXTENDED_LIMIT_INFORMATION, jobs::JobObjectExtendedLimitInformation);
    assert_eq!(job::JOB_OBJECT_LIMIT_KILL_ON_JOB_CLOSE, jobs::JOB_OBJECT_LIMIT_KILL_ON_JOB_CLOSE);
    assert_eq!(win32::ERROR_SUCCESS, foundation::ERROR_SUCCESS);
    assert_eq!(win32::INVALID_HANDLE_VALUE, foundation::INVALID_HANDLE_VALUE as usize);
    assert_eq!(win32::INFINITE, threading::INFINITE);
}
