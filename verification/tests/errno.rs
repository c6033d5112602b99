use berkeley_socket::errno::SystemError;

#[test]
fn error_numbers_are_those_of_linux() {
    assert_eq!(SystemError::EINVAL.code(), linux_errnos::Errno::EINVAL.into_raw());
    assert_eq!(SystemError::EAGAIN_OR_EWOULDBLOCK.code(), linux_errnos::Errno::EAGAIN.into_raw());
    assert_eq!(SystemError::EINPROGRESS.code(), linux_errnos::Errno::EINPROGRESS.into_raw());
    assert_eq!(SystemError::EALREADY.code(), linux_errnos::Errno::EALREADY.into_raw());
    assert_eq!(SystemError::EISCONN.code(), linux_errnos::Errno::EISCONN.into_raw());
    assert_eq!(SystemError::ENOTCONN.code(), linux_errnos::Errno::ENOTCONN.into_raw());
    assert_eq!(SystemError::EADDRINUSE.code(), linux_errnos::Errno::EADDRINUSE.into_raw());
    assert_eq!(SystemError::ENODEV.code(), linux_errnos::Errno::ENODEV.into_raw());
    assert_eq!(SystemError::ECONNREFUSED.code(), linux_errnos::Errno::ECONNREFUSED.into_raw());
    assert_eq!(SystemError::ECONNRESET.code(), linux_errnos::Errno::ECONNRESET.into_raw());
    assert_eq!(SystemError::EPIPE.code(), linux_errnos::Errno::EPIPE.into_raw());
    assert_eq!(SystemError::EPROTONOSUPPORT.code(), linux_errnos::Errno::EPROTONOSUPPORT.into_raw());
    assert_eq!(SystemError::ENOSYS.code(), linux_errnos::Errno::ENOSYS.into_raw());
    assert_eq!(SystemError::ETIMEDOUT.code(), linux_errnos::Errno::ETIMEDOUT.into_raw());
}
