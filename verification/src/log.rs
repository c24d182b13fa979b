//! The texts of the errors: those that the service writes to its log, and
//! the pages that it sends to a client.

use vstd::prelude::*;
use vstd::string::*;

verus! {

/// The text of a server-side error.
pub open spec fn server_text(err: u32) -> Seq<char> {
    if err == 100 {
        "Відсутній файл конфігурації"@
    } else if err == 101 {
        "Файл конфігурації має невірний формат"@
    } else if err == 102 {
        "В файлі конфігурації відсутній параметр 'port' (Порт TCP запуску сервера генерації прайсів B2B)"@
    } else if err == 103 {
        "В файлі конфігурації параметр 'port' має невірний формат (Число від 1 до 65536)"@
    } else if err == 104 {
        "В файлі конфігурації відсутній параметр 'time_zone'"@
    } else if err == 105 {
        "В файлі конфігурації параметр 'time_zone' має невірний формат (https://en.wikipedia.org/wiki/List_of_tz_database_time_zones)"@
    } else if err == 106 {
        "В файлі конфігурації відсутній параметр 'max' (Кількість потоків на обробку прайсів)"@
    } else if err == 107 {
        "В файлі конфігурації параметр 'max' має невірний формат (Число від 1 до 255)"@
    } else if err == 108 {
        "В файлі конфігурації відсутній параметр 'db_log_host' (Хост бази даних MySql логістики товарів)"@
    } else if err == 109 {
        "В файлі конфігурації параметр 'db_log_host' має невірний формат"@
    } else if err == 110 {
        "В файлі конфігурації відсутній параметр 'db_log_port' (Порт бази даних MySql логістики товарів)"@
    } else if err == 111 {
        "В файлі конфігурації параметр 'db_log_port' має невірний формат (Число від 1 до 65536)"@
    } else if err == 112 {
        "В файлі конфігурації відсутній параметр 'db_log_user' (Користувач бази даних MySql логістики товарів)"@
    } else if err == 113 {
        "В файлі конфігурації параметр 'db_log_user' має невірний формат"@
    } else if err == 114 {
        "В файлі конфігурації відсутній параметр 'db_log_pwd' (Пароль користувача бази даних MySql логістики товарів)"@
    } else if err == 115 {
        "В файлі конфігурації параметр 'db_log_pwd' має невірний формат"@
    } else if err == 116 {
        "В файлі конфігурації відсутній параметр 'db_log_name' (Назва бази даних MySql логістики товарів)"@
    } else if err == 117 {
        "В файлі конфігурації параметр 'db_log_name' має невірний формат"@
    } else if err == 118 {
        "В файлі конфігурації відсутній параметр 'db_b2b_host' (Хост бази даних MySql B2B портала)"@
    } else if err == 119 {
        "В файлі конфігурації параметр 'db_b2b_host' має невірний формат"@
    } else if err == 120 {
        "В файлі конфігурації відсутній параметр 'db_b2b_port' (Порт бази даних MySql B2B портала)"@
    } else if err == 121 {
        "В файлі конфігурації параметр 'db_b2b_port' має невірний формат (Число від 1 до 65536)"@
    } else if err == 122 {
        "В файлі конфігурації відсутній параметр 'db_b2b_user' (Користувач бази даних MySql B2B портала)"@
    } else if err == 123 {
        "В файлі конфігурації параметр 'db_b2b_user' має невірний формат"@
    } else if err == 124 {
        "В файлі конфігурації відсутній параметр 'db_b2b_pwd' (Пароль користувача бази даних MySql B2B портала)"@
    } else if err == 125 {
        "В файлі конфігурації параметр 'db_b2b_pwd' має невірний формат"@
    } else if err == 126 {
        "В файлі конфігурації відсутній параметр 'db_b2b_name' (Назва бази даних MySql B2B портала)"@
    } else if err == 127 {
        "В файлі конфігурації параметр 'db_b2b_name' має невірний формат"@
    } else if err == 128 {
        "В файлі конфігурації відсутній параметр 'db_local_host' (Хост бази даних MySql логіювання запитів)"@
    } else if err == 129 {
        "В файлі конфігурації параметр 'db_local_host' має невірний формат"@
    } else if err == 130 {
        "В файлі конфігурації відсутній параметр 'db_local_port' (Порт бази даних MySql логіювання запитів)"@
    } else if err == 131 {
        "В файлі конфігурації параметр 'db_local_port' має невірний формат (Число від 1 до 65536)"@
    } else if err == 132 {
        "В файлі конфігурації відсутній параметр 'db_local_user' (Користувач бази даних MySql логіювання запитів)"@
    } else if err == 133 {
        "В файлі конфігурації параметр 'db_local_user' має невірний формат"@
    } else if err == 134 {
        "В файлі конфігурації відсутній параметр 'db_local_pwd' (Пароль користувача бази даних MySql логіювання запитів)"@
    } else if err == 135 {
        "В файлі конфігурації параметр 'db_local_pwd' має невірний формат"@
    } else if err == 136 {
        "В файлі конфігурації відсутній параметр 'db_local_name' (Назва бази даних MySql логіювання запитів)"@
    } else if err == 137 {
        "В файлі конфігурації параметр 'db_local_name' має невірний формат"@
    } else if err == 138 {
        "В файлі конфігурації відсутній параметр 'irc' (Порт TCP управління сервера генерації прайсів B2B)"@
    } else if err == 139 {
        "В файлі конфігурації параметр 'irc' має невірний формат (Число від 1 до 65536)"@
    } else if err == 140 {
        "В файлі конфігурації відсутній параметр 'salt'"@
    } else if err == 141 {
        "В файлі конфігурації параметр 'salt' має невірний формат"@
    } else if err == 200 {
        "Помилка запуска сервера"@
    } else if err == 201 {
        "Помилка при з’єднання до IRC сервера"@
    } else if err == 202 {
        "Не вдалося приднатися до IRC сервера"@
    } else if err == 203 {
        "Помилка відправлення сигналу до IRC сервера"@
    } else if err == 204 {
        "Не вдалося встановити timeout читання даних від IRC сервера"@
    } else if err == 205 {
        "Не вдалося прочитати дані від IRC сервера"@
    } else if err == 206 {
        "Дані відсутні при читанні від IRC сервера"@
    } else if err == 207 {
        "Невірні дані отримані при читанні від IRC сервера"@
    } else if err == 208 {
        "Невірні дані отримані при читанні від IRC сервера"@
    } else if err == 300 {
        "Відсутні права для запуска IRC сервера"@
    } else if err == 301 {
        "Сокет IRC занятий"@
    } else if err == 302 {
        "Сокет IRC недоступний для користування"@
    } else if err == 303 {
        "Неможливо відкрити сокет IRC"@
    } else if err == 304 {
        "Неможливо встановити неблокуючий режим для сокет IRC"@
    } else if err == 400 {
        "Відсутні права для запуска TCP сервера"@
    } else if err == 401 {
        "Сокет TCP занятий"@
    } else if err == 402 {
        "Сокет TCP недоступний для користування"@
    } else if err == 403 {
        "Неможливо відкрити сокет TCP"@
    } else if err == 404 {
        "Неможливо встановити неблокуючий режим для сокет TCP"@
    } else if err == 500 {
        "Проблеми з чергою потоків"@
    } else if err == 501 {
        "Переплутані з'єднання"@
    } else if err == 502 {
        "Неможливо використовувати каталог для кеша прайсів"@
    } else if err == 503 {
        "Неможливо створити каталог для кеша прайсів"@
    } else if err == 600 {
        "Некорректна строка підключення до бази даних"@
    } else if err == 601 {
        "Помилка з'єднання з базою даних"@
    } else if err == 602 {
        "Помилка виконання запиту до бази даних"@
    } else if err == 603 {
        "Не вдалося встановити початкові параметри підключення"@
    } else {
        "Невідома помилка"@
    }
}

/// The text of a server-side error.
pub fn server_message(err: u32) -> (s: &'static str)
    ensures
        s@ == server_text(err),
{
    if err == 100 {
        "Відсутній файл конфігурації"
    } else if err == 101 {
        "Файл конфігурації має невірний формат"
    } else if err == 102 {
        "В файлі конфігурації відсутній параметр 'port' (Порт TCP запуску сервера генерації прайсів B2B)"
    } else if err == 103 {
        "В файлі конфігурації параметр 'port' має невірний формат (Число від 1 до 65536)"
    } else if err == 104 {
        "В файлі конфігурації відсутній параметр 'time_zone'"
    } else if err == 105 {
        "В файлі конфігурації параметр 'time_zone' має невірний формат (https://en.wikipedia.org/wiki/List_of_tz_database_time_zones)"
    } else if err == 106 {
        "В файлі конфігурації відсутній параметр 'max' (Кількість потоків на обробку прайсів)"
    } else if err == 107 {
        "В файлі конфігурації параметр 'max' має невірний формат (Число від 1 до 255)"
    } else if err == 108 {
        "В файлі конфігурації відсутній параметр 'db_log_host' (Хост бази даних MySql логістики товарів)"
    } else if err == 109 {
        "В файлі конфігурації параметр 'db_log_host' має невірний формат"
    } else if err == 110 {
        "В файлі конфігурації відсутній параметр 'db_log_port' (Порт бази даних MySql логістики товарів)"
    } else if err == 111 {
        "В файлі конфігурації параметр 'db_log_port' має невірний формат (Число від 1 до 65536)"
    } else if err == 112 {
        "В файлі конфігурації відсутній параметр 'db_log_user' (Користувач бази даних MySql логістики товарів)"
    } else if err == 113 {
        "В файлі конфігурації параметр 'db_log_user' має невірний формат"
    } else if err == 114 {
        "В файлі конфігурації відсутній параметр 'db_log_pwd' (Пароль користувача бази даних MySql логістики товарів)"
    } else if err == 115 {
        "В файлі конфігурації параметр 'db_log_pwd' має невірний формат"
    } else if err == 116 {
        "В файлі конфігурації відсутній параметр 'db_log_name' (Назва бази даних MySql логістики товарів)"
    } else if err == 117 {
        "В файлі конфігурації параметр 'db_log_name' має невірний формат"
    } else if err == 118 {
        "В файлі конфігурації відсутній параметр 'db_b2b_host' (Хост бази даних MySql B2B портала)"
    } else if err == 119 {
        "В файлі конфігурації параметр 'db_b2b_host' має невірний формат"
    } else if err == 120 {
        "В файлі конфігурації відсутній параметр 'db_b2b_port' (Порт бази даних MySql B2B портала)"
    } else if err == 121 {
        "В файлі конфігурації параметр 'db_b2b_port' має невірний формат (Число від 1 до 65536)"
    } else if err == 122 {
        "В файлі конфігурації відсутній параметр 'db_b2b_user' (Користувач бази даних MySql B2B портала)"
    } else if err == 123 {
        "В файлі конфігурації параметр 'db_b2b_user' має невірний формат"
    } else if err == 124 {
        "В файлі конфігурації відсутній параметр 'db_b2b_pwd' (Пароль користувача бази даних MySql B2B портала)"
    } else if err == 125 {
        "В файлі конфігурації параметр 'db_b2b_pwd' має невірний формат"
    } else if err == 126 {
        "В файлі конфігурації відсутній параметр 'db_b2b_name' (Назва бази даних MySql B2B портала)"
    } else if err == 127 {
        "В файлі конфігурації параметр 'db_b2b_name' має невірний формат"
    } else if err == 128 {
        "В файлі конфігурації відсутній параметр 'db_local_host' (Хост бази даних MySql логіювання запитів)"
    } else if err == 129 {
        "В файлі конфігурації параметр 'db_local_host' має невірний формат"
    } else if err == 130 {
        "В файлі конфігурації відсутній параметр 'db_local_port' (Порт бази даних MySql логіювання запитів)"
    } else if err == 131 {
        "В файлі конфігурації параметр 'db_local_port' має невірний формат (Число від 1 до 65536)"
    } else if err == 132 {
        "В файлі конфігурації відсутній параметр 'db_local_user' (Користувач бази даних MySql логіювання запитів)"
    } else if err == 133 {
        "В файлі конфігурації параметр 'db_local_user' має невірний формат"
    } else if err == 134 {
        "В файлі конфігурації відсутній параметр 'db_local_pwd' (Пароль користувача бази даних MySql логіювання запитів)"
    } else if err == 135 {
        "В файлі конфігурації параметр 'db_local_pwd' має невірний формат"
    } else if err == 136 {
        "В файлі конфігурації відсутній параметр 'db_local_name' (Назва бази даних MySql логіювання запитів)"
    } else if err == 137 {
        "В файлі конфігурації параметр 'db_local_name' має невірний формат"
    } else if err == 138 {
        "В файлі конфігурації відсутній параметр 'irc' (Порт TCP управління сервера генерації прайсів B2B)"
    } else if err == 139 {
        "В файлі конфігурації параметр 'irc' має невірний формат (Число від 1 до 65536)"
    } else if err == 140 {
        "В файлі конфігурації відсутній параметр 'salt'"
    } else if err == 141 {
        "В файлі конфігурації параметр 'salt' має невірний формат"
    } else if err == 200 {
        "Помилка запуска сервера"
    } else if err == 201 {
        "Помилка при з’єднання до IRC сервера"
    } else if err == 202 {
        "Не вдалося приднатися до IRC сервера"
    } else if err == 203 {
        "Помилка відправлення сигналу до IRC сервера"
    } else if err == 204 {
        "Не вдалося встановити timeout читання даних від IRC сервера"
    } else if err == 205 {
        "Не вдалося прочитати дані від IRC сервера"
    } else if err == 206 {
        "Дані відсутні при читанні від IRC сервера"
    } else if err == 207 {
        "Невірні дані отримані при читанні від IRC сервера"
    } else if err == 208 {
        "Невірні дані отримані при читанні від IRC сервера"
    } else if err == 300 {
        "Відсутні права для запуска IRC сервера"
    } else if err == 301 {
        "Сокет IRC занятий"
    } else if err == 302 {
        "Сокет IRC недоступний для користування"
    } else if err == 303 {
        "Неможливо відкрити сокет IRC"
    } else if err == 304 {
        "Неможливо встановити неблокуючий режим для сокет IRC"
    } else if err == 400 {
        "Відсутні права для запуска TCP сервера"
    } else if err == 401 {
        "Сокет TCP занятий"
    } else if err == 402 {
        "Сокет TCP недоступний для користування"
    } else if err == 403 {
        "Неможливо відкрити сокет TCP"
    } else if err == 404 {
        "Неможливо встановити неблокуючий режим для сокет TCP"
    } else if err == 500 {
        "Проблеми з чергою потоків"
    } else if err == 501 {
        "Переплутані з'єднання"
    } else if err == 502 {
        "Неможливо використовувати каталог для кеша прайсів"
    } else if err == 503 {
        "Неможливо створити каталог для кеша прайсів"
    } else if err == 600 {
        "Некорректна строка підключення до бази даних"
    } else if err == 601 {
        "Помилка з'єднання з базою даних"
    } else if err == 602 {
        "Помилка виконання запиту до бази даних"
    } else if err == 603 {
        "Не вдалося встановити початкові параметри підключення"
    } else {
        "Невідома помилка"
    }
}

/// The line that a client is shown for an error.
pub open spec fn client_text(err: u32) -> Seq<char> {
    if err == 1 {
        "Помилка 1: Відсутній параметр format"@
    } else if err == 2 {
        "Помилка 2: Формат прайс-листа не підтримується"@
    } else if err == 3 {
        "Помилка 3: Відсутній параметр full"@
    } else if err == 4 {
        "Помилка 4: Тип прайсу не підтримується"@
    } else if err == 5 {
        "Помилка 5: Відсутній параметр companyID"@
    } else if err == 6 {
        "Помилка 6: Невірний формат companyID"@
    } else if err == 7 {
        "Помилка 7: Відсутній параметр targetID"@
    } else if err == 8 {
        "Помилка 8: Невірний формат targetID"@
    } else if err == 9 {
        "Помилка 9: Відсутній параметр lang"@
    } else if err == 10 {
        "Помилка 10: Невірний формат lang"@
    } else if err == 11 {
        "Помилка 11: Відсутній параметр time"@
    } else if err == 12 {
        "Помилка 12: Невірний формат time"@
    } else if err == 13 {
        "Помилка 13: Відсутній параметр userID"@
    } else if err == 14 {
        "Помилка 14: Невірний формат userID"@
    } else if err == 15 {
        "Помилка 15: Відсутній параметр token"@
    } else if err == 16 {
        "Помилка 16: Невірний token"@
    } else if err == 17 {
        "Помилка 17: Доступ заборонено (companyID не знайдено)"@
    } else if err == 18 {
        "Помилка 18: Доступ заборонено (userID не знайдено)"@
    } else if err == 19 {
        "Помилка 19: Доступ заборонено (profilesID не встановлено)"@
    } else if err == 20 {
        "Помилка 20: Неможливо перевірити директорію cache для прайсів"@
    } else if err == 21 {
        "Помилка 21: Неможливо видалити застарілі cache-файли для прайсів"@
    } else if err == 22 {
        "Помилка 22: Неможливо видалити cache-файли для прайсів"@
    } else if err == 23 {
        "Помилка 23: targetID повинен бути > 0"@
    } else if err == 24 {
        "Помилка 24: Сервер прайсів зупинено"@
    } else if err == 25 {
        "Помилка 25: Невідомий targetID"@
    } else if err == 26 {
        "Помилка 26: До targetID не прив'язан склад"@
    } else if err == 27 {
        "Помилка 27: Неможливо отримати ціни"@
    } else if err == 28 {
        "Помилка 28: Неможливо прочитати ціни"@
    } else if err == 29 {
        "Помилка 29: Неможливо сформувати прайс-лист у форматі xlsx"@
    } else if err == 30 {
        "Помилка 30: Неможливо сформувати прайс-лист у форматі php"@
    } else if err == 31 {
        "Помилка 31: Неможливо сформувати прайс-лист у форматі xml"@
    } else if err == 32 {
        "Помилка 32: Неможливо сформувати прайс-лист у форматі json"@
    } else {
        "Невідома помилка"@
    }
}

/// The line that a client is shown for an error.
pub fn client_message(err: u32) -> (s: &'static str)
    ensures
        s@ == client_text(err),
{
    if err == 1 {
        "Помилка 1: Відсутній параметр format"
    } else if err == 2 {
        "Помилка 2: Формат прайс-листа не підтримується"
    } else if err == 3 {
        "Помилка 3: Відсутній параметр full"
    } else if err == 4 {
        "Помилка 4: Тип прайсу не підтримується"
    } else if err == 5 {
        "Помилка 5: Відсутній параметр companyID"
    } else if err == 6 {
        "Помилка 6: Невірний формат companyID"
    } else if err == 7 {
        "Помилка 7: Відсутній параметр targetID"
    } else if err == 8 {
        "Помилка 8: Невірний формат targetID"
    } else if err == 9 {
        "Помилка 9: Відсутній параметр lang"
    } else if err == 10 {
        "Помилка 10: Невірний формат lang"
    } else if err == 11 {
        "Помилка 11: Відсутній параметр time"
    } else if err == 12 {
        "Помилка 12: Невірний формат time"
    } else if err == 13 {
        "Помилка 13: Відсутній параметр userID"
    } else if err == 14 {
        "Помилка 14: Невірний формат userID"
    } else if err == 15 {
        "Помилка 15: Відсутній параметр token"
    } else if err == 16 {
        "Помилка 16: Невірний token"
    } else if err == 17 {
        "Помилка 17: Доступ заборонено (companyID не знайдено)"
    } else if err == 18 {
        "Помилка 18: Доступ заборонено (userID не знайдено)"
    } else if err == 19 {
        "Помилка 19: Доступ заборонено (profilesID не встановлено)"
    } else if err == 20 {
        "Помилка 20: Неможливо перевірити директорію cache для прайсів"
    } else if err == 21 {
        "Помилка 21: Неможливо видалити застарілі cache-файли для прайсів"
    } else if err == 22 {
        "Помилка 22: Неможливо видалити cache-файли для прайсів"
    } else if err == 23 {
        "Помилка 23: targetID повинен бути > 0"
    } else if err == 24 {
        "Помилка 24: Сервер прайсів зупинено"
    } else if err == 25 {
        "Помилка 25: Невідомий targetID"
    } else if err == 26 {
        "Помилка 26: До targetID не прив'язан склад"
    } else if err == 27 {
        "Помилка 27: Неможливо отримати ціни"
    } else if err == 28 {
        "Помилка 28: Неможливо прочитати ціни"
    } else if err == 29 {
        "Помилка 29: Неможливо сформувати прайс-лист у форматі xlsx"
    } else if err == 30 {
        "Помилка 30: Неможливо сформувати прайс-лист у форматі php"
    } else if err == 31 {
        "Помилка 31: Неможливо сформувати прайс-лист у форматі xml"
    } else if err == 32 {
        "Помилка 32: Неможливо сформувати прайс-лист у форматі json"
    } else {
        "Невідома помилка"
    }
}

/// The page that a client is shown for an error.
pub open spec fn client_page(err: u32) -> Seq<char> {
    "<!DOCTYPE HTML><html><head><title>PriceList</title><meta charset=\"utf-8\"/></head><body>"@
        + client_text(err) + "</body></html>"@
}

/// The name of the log file in the directory `dir`.
pub open spec fn log_file(dir: Seq<char>) -> Seq<char> {
    dir + "/error.log"@
}

/// The log of one process.
#[derive(Debug)]
pub struct Log {
    pub pid: u32,
    pub file: String,
}

impl Log {
    /// The log of the process `pid`, kept in the directory `dir`.
    pub fn new(pid: u32, dir: &str) -> (log: Log)
        ensures
            log.pid == pid,
            log.file@ == log_file(dir@),
    {
        let mut file = dir.to_owned();
        file.append("/error.log");
        Log { pid, file }
    }

    /// The text of the server-side error `err`.
    pub fn get_error(&self, err: u32) -> (s: String)
        ensures
            s@ == server_text(err),
    {
        server_message(err).to_owned()
    }

    /// The page that a client is shown for the error `err`.
    pub fn client_err(&self, err: u32) -> (s: String)
        ensures
            s@ == client_page(err),
    {
        let mut page =
            "<!DOCTYPE HTML><html><head><title>PriceList</title><meta charset=\"utf-8\"/></head><body>".to_owned();
        page.append(client_message(err));
        page.append("</body></html>");
        page
    }

    /// The line that the log gets for the error `err` at the moment `time`,
    /// with a description where there is one.
    pub fn line(&self, time: &str, err: u32, text: &str) -> (s: String)
        ensures
            s@ == time@ + " PID="@ + crate::text::decimal_chars(self.pid as nat) + " Помилка "@
                + crate::text::decimal_chars(err as nat) + ": "@ + server_text(err) + (if text@.len()
                > 0 {
                ". Опис: "@ + text@ + "\n"@
            } else {
                ".\n"@
            }),
    {
        let mut s = time.to_owned();
        s.append(" PID=");
        crate::text::append_decimal(&mut s, self.pid);
        s.append(" Помилка ");
        crate::text::append_decimal(&mut s, err);
        s.append(": ");
        s.append(server_message(err));
        if text.unicode_len() > 0 {
            s.append(". Опис: ");
            s.append(text);
            s.append("\n");
        } else {
            s.append(".\n");
        }
        s
    }
}

} // verus!
